//! Track metadata from Vorbis comments, as found in FLAC and Ogg files.

use vstd::prelude::*;

use crate::media_util::{key_signature_of, parse_key_signature, KeySignature};
use crate::media_util::{Actor, ActorRole};
use crate::tag_import::{
    actor_runs, actors_of_role, actors_view, law_push_actor_views_names, names_and_roles, with_role, has_role, law_actors_of_one_role, no_role_notes, index_numbers, law_push_actor_views_keeps_runs, opt_str_view, opt_string_view, optional_title, parse_index_numbers,
    parse_year_tag, push_actor_names, push_actor_views, push_optional_title, separator_str,
    split_labels, split_tag_labels, titles_view, year_tag_date, year_tag_release, naive_date_time,
    rfc3339_date_time, DateOrDateTime, ActorView, AlbumKind,
    FacetedTagMappingConfig, FacetedTagMappingConfigView, ImportedTrack, ImportedTrackView, Index,
    Title, TitleKind,
};
use crate::text::parse_u16;
use crate::text::{collect_chars, parse_u8, parse_u8_in};

verus! {

/// The first of the values of a field, if the field is there and has one.
pub open spec fn first_value(field: Option<Seq<Seq<char>>>) -> Option<Seq<char>> {
    match field {
        Some(values) => if values.len() > 0 {
            Some(values[0])
        } else {
            None
        },
        None => None,
    }
}

/// The values of a field; none if the field is not there.
pub open spec fn field_values(field: Option<Seq<Seq<char>>>) -> Seq<Seq<char>> {
    match field {
        Some(values) => values,
        None => Seq::empty(),
    }
}

/// Reads the values of comment fields.
pub trait CommentReader {
    /// The values of the field `key`, in order, if the field is there.
    spec fn field(&self, key: Seq<char>) -> Option<Seq<Seq<char>>>;

    fn read_first_value(&self, key: &str) -> (value: Option<&str>)
        ensures
            opt_str_view(value) == first_value(self.field(key@)),
    ;

    fn read_values(&self, key: &str) -> (values: Option<Vec<String>>)
        ensures
            match values {
                Some(v) => self.field(key@) == Some(v.deep_view()),
                None => self.field(key@) is None,
            },
    ;
}

#[verifier::external_type_specification]
#[verifier::external_body]
pub struct ExFlacTag(metaflac::Tag);

/// The comments of the first Vorbis comment block of a FLAC tag: the values
/// of each field, in order, keyed by the field name in ASCII upper case.
pub uninterp spec fn flac_vorbis_comments(tag: metaflac::Tag) -> Map<Seq<char>, Seq<Seq<char>>>;

/// ASCII letters in upper case, all other characters unchanged.
pub open spec fn ascii_uppercase(s: Seq<char>) -> Seq<char> {
    Seq::new(s.len(), |i: int| if 'a' <= s[i] <= 'z' { ((s[i] as int) - 32) as char } else { s[i] })
}

/// The values of a field, looked up by its name in upper case.
pub open spec fn comment_field(comments: Map<Seq<char>, Seq<Seq<char>>>, key: Seq<char>) -> Option<Seq<Seq<char>>> {
    if comments.contains_key(ascii_uppercase(key)) {
        Some(comments[ascii_uppercase(key)])
    } else {
        None
    }
}

/// `metaflac::Tag::get_vorbis`, which looks up the values of a field by its
/// name in ASCII upper case; the first of them.
#[verifier::external_body]
fn flac_first_vorbis_value<'a>(tag: &'a metaflac::Tag, key: &str) -> (value: Option<&'a str>)
    ensures
        opt_str_view(value) == first_value(comment_field(flac_vorbis_comments(*tag), key@)),
{
    tag.get_vorbis(key).and_then(|mut values| values.next())
}

/// `metaflac::Tag::get_vorbis`, which looks up the values of a field by its
/// name in ASCII upper case; all of them, copied, in order.
#[verifier::external_body]
fn flac_vorbis_values(tag: &metaflac::Tag, key: &str) -> (values: Option<Vec<String>>)
    ensures
        match values {
            Some(v) => comment_field(flac_vorbis_comments(*tag), key@) == Some(v.deep_view()),
            None => comment_field(flac_vorbis_comments(*tag), key@) is None,
        },
{
    tag.get_vorbis(key).map(|values| values.map(String::from).collect())
}

impl CommentReader for metaflac::Tag {
    open spec fn field(&self, key: Seq<char>) -> Option<Seq<Seq<char>>> {
        comment_field(flac_vorbis_comments(*self), key)
    }

    fn read_first_value(&self, key: &str) -> (value: Option<&str>) {
        flac_first_vorbis_value(self, key)
    }

    fn read_values(&self, key: &str) -> (values: Option<Vec<String>>) {
        flac_vorbis_values(self, key)
    }
}

/// The value of a field, copied.
pub open spec fn owned_value<R: CommentReader>(reader: &R, key: Seq<char>, value: Option<String>) -> bool {
    opt_string_view(value) == first_value(reader.field(key))
}

/// The record label: the field `LABEL`.
pub fn import_released_by<R: CommentReader>(reader: &R) -> (released_by: Option<String>)
    ensures
        owned_value(reader, "LABEL"@, released_by),
{
    match reader.read_first_value("LABEL") {
        Some(label) => Some(label.to_owned()),
        None => None,
    }
}

/// The copyright notice: the field `COPYRIGHT`.
pub fn import_release_copyright<R: CommentReader>(reader: &R) -> (copyright: Option<String>)
    ensures
        owned_value(reader, "COPYRIGHT"@, copyright),
{
    match reader.read_first_value("COPYRIGHT") {
        Some(copyright) => Some(copyright.to_owned()),
        None => None,
    }
}

/// A track belongs to a compilation if the field `COMPILATION` holds the
/// number 1.
pub fn import_album_kind<R: CommentReader>(reader: &R) -> (album_kind: Option<AlbumKind>)
    ensures
        album_kind == (if first_value(reader.field("COMPILATION"@)) matches Some(v) && parse_u8(v) == Some(1u8) {
            Some(AlbumKind::Compilation)
        } else {
            None
        }),
{
    match reader.read_first_value("COMPILATION") {
        Some(compilation) => {
            let chars = collect_chars(compilation);
            assert(chars@.subrange(0, chars.len() as int) =~= compilation@);
            match parse_u8_in(&chars, 0, chars.len()) {
                Some(1) => Some(AlbumKind::Compilation),
                _ => None,
            }
        },
        None => None,
    }
}

/// The key signature from the field `INITIALKEY`, or else from `KEY`.
pub fn import_key_signature<R: CommentReader>(reader: &R) -> (key_signature: Option<KeySignature>)
    ensures
        key_signature == (match first_value(reader.field("INITIALKEY"@)) {
            Some(v) if key_signature_of(v) is Some => key_signature_of(v),
            _ => match first_value(reader.field("KEY"@)) {
                Some(v) => key_signature_of(v),
                None => None,
            },
        }),
{
    if let Some(initial_key) = reader.read_first_value("INITIALKEY") {
        if let Some(key_signature) = parse_key_signature(initial_key) {
            return Some(key_signature);
        }
    }
    match reader.read_first_value("KEY") {
        Some(key) => parse_key_signature(key),
        None => None,
    }
}


/// The first value of the field `key`.
pub open spec fn first_of<R: CommentReader>(reader: &R, key: Seq<char>) -> Option<Seq<char>> {
    first_value(reader.field(key))
}

/// The titles of a track: `TITLE`, `SUBTITLE`, `WORK` and `MOVEMENTNAME`,
/// as main title, subtitle, work and movement, in this order.
pub open spec fn vorbis_track_titles<R: CommentReader>(reader: &R) -> Seq<(Seq<char>, TitleKind)> {
    optional_title(first_of(reader, "TITLE"@), TitleKind::Main) + optional_title(
        first_of(reader, "SUBTITLE"@),
        TitleKind::Sub,
    ) + optional_title(first_of(reader, "WORK"@), TitleKind::Work) + optional_title(
        first_of(reader, "MOVEMENTNAME"@),
        TitleKind::Movement,
    )
}

pub fn import_track_titles<R: CommentReader>(reader: &R) -> (titles: Vec<Title>)
    ensures
        titles_view(titles@) == vorbis_track_titles(reader),
{
    let mut titles: Vec<Title> = Vec::new();
    assert(titles_view(titles@) =~= Seq::empty());
    push_optional_title(&mut titles, reader.read_first_value("TITLE"), TitleKind::Main);
    push_optional_title(&mut titles, reader.read_first_value("SUBTITLE"), TitleKind::Sub);
    push_optional_title(&mut titles, reader.read_first_value("WORK"), TitleKind::Work);
    push_optional_title(&mut titles, reader.read_first_value("MOVEMENTNAME"), TitleKind::Movement);
    titles
}

/// The title of an album: `ALBUM`, as main title.
pub open spec fn vorbis_album_titles<R: CommentReader>(reader: &R) -> Seq<(Seq<char>, TitleKind)> {
    optional_title(first_of(reader, "ALBUM"@), TitleKind::Main)
}

pub fn import_album_titles<R: CommentReader>(reader: &R) -> (titles: Vec<Title>)
    ensures
        titles_view(titles@) == vorbis_album_titles(reader),
{
    let mut titles: Vec<Title> = Vec::new();
    assert(titles_view(titles@) =~= Seq::empty());
    push_optional_title(&mut titles, reader.read_first_value("ALBUM"), TitleKind::Main);
    titles
}

/// The actors of a track: every value of `ARTIST`, `COMPOSER`,
/// `CONDUCTOR`, `PRODUCER` and `REMIXER`, in this order of roles.
pub open spec fn vorbis_track_actors<R: CommentReader>(reader: &R) -> Seq<ActorView> {
    let artists = push_actor_views(Seq::empty(), ActorRole::Artist, field_values(reader.field("ARTIST"@)));
    let composers = push_actor_views(artists, ActorRole::Composer, field_values(reader.field("COMPOSER"@)));
    let conductors = push_actor_views(composers, ActorRole::Conductor, field_values(reader.field("CONDUCTOR"@)));
    let producers = push_actor_views(conductors, ActorRole::Producer, field_values(reader.field("PRODUCER"@)));
    push_actor_views(producers, ActorRole::Remixer, field_values(reader.field("REMIXER"@)))
}

proof fn lemma_empty_actor_runs()
    ensures
        actor_runs(Seq::<ActorView>::empty()),
        forall|r: ActorRole| !has_role(Seq::<ActorView>::empty(), r),
{
}

/// The imported actors of a track stand in one run per role, artists,
/// composers, conductors, producers and remixers, each actor a summary
/// exactly when it is the only one of its role; so do the album artists.
pub proof fn law_vorbis_actors_in_runs<R: CommentReader>(reader: &R)
    ensures
        actor_runs(vorbis_track_actors(reader)),
        actor_runs(vorbis_album_actors(reader)),
{
    lemma_empty_actor_runs();
    let empty = Seq::<ActorView>::empty();
    let a = field_values(reader.field("ARTIST"@));
    let c = field_values(reader.field("COMPOSER"@));
    let d = field_values(reader.field("CONDUCTOR"@));
    let p = field_values(reader.field("PRODUCER"@));
    let r = field_values(reader.field("REMIXER"@));
    let s1 = push_actor_views(empty, ActorRole::Artist, a);
    law_push_actor_views_keeps_runs(empty, ActorRole::Artist, a);
    assert(!has_role(s1, ActorRole::Composer) && !has_role(s1, ActorRole::Conductor));
    assert(!has_role(s1, ActorRole::Producer) && !has_role(s1, ActorRole::Remixer));
    let s2 = push_actor_views(s1, ActorRole::Composer, c);
    law_push_actor_views_keeps_runs(s1, ActorRole::Composer, c);
    assert(!has_role(s2, ActorRole::Conductor) && !has_role(s2, ActorRole::Producer) && !has_role(s2, ActorRole::Remixer));
    let s3 = push_actor_views(s2, ActorRole::Conductor, d);
    law_push_actor_views_keeps_runs(s2, ActorRole::Conductor, d);
    assert(!has_role(s3, ActorRole::Producer) && !has_role(s3, ActorRole::Remixer));
    let s4 = push_actor_views(s3, ActorRole::Producer, p);
    law_push_actor_views_keeps_runs(s3, ActorRole::Producer, p);
    assert(!has_role(s4, ActorRole::Remixer));
    law_push_actor_views_keeps_runs(s4, ActorRole::Remixer, r);
    let field = or_field(
        reader.field("ALBUMARTIST"@),
        or_field(reader.field("ALBUM_ARTIST"@), or_field(reader.field("ALBUM ARTIST"@), reader.field("ENSEMBLE"@))),
    );
    law_push_actor_views_keeps_runs(empty, ActorRole::Artist, field_values(field));
}

/// The album artists are the values, in order, of the first of the fields
/// `ALBUMARTIST`, `ALBUM_ARTIST`, `ALBUM ARTIST` and `ENSEMBLE` that is
/// there: a summary artist where there is one value and primary artists
/// where there are more; none where none of the fields is there.
pub proof fn law_vorbis_album_artist_fields<R: CommentReader>(reader: &R)
    ensures
        match (
            reader.field("ALBUMARTIST"@),
            reader.field("ALBUM_ARTIST"@),
            reader.field("ALBUM ARTIST"@),
            reader.field("ENSEMBLE"@),
        ) {
            (Some(vs), _, _, _) => vorbis_album_actors(reader) == actors_of_role(ActorRole::Artist, vs),
            (None, Some(vs), _, _) => vorbis_album_actors(reader) == actors_of_role(ActorRole::Artist, vs),
            (None, None, Some(vs), _) => vorbis_album_actors(reader) == actors_of_role(ActorRole::Artist, vs),
            (None, None, None, Some(vs)) => vorbis_album_actors(reader) == actors_of_role(ActorRole::Artist, vs),
            (None, None, None, None) => vorbis_album_actors(reader).len() == 0,
        },
{
    let field = or_field(
        reader.field("ALBUMARTIST"@),
        or_field(reader.field("ALBUM_ARTIST"@), or_field(reader.field("ALBUM ARTIST"@), reader.field("ENSEMBLE"@))),
    );
    law_actors_of_one_role(ActorRole::Artist, field_values(field));
}

/// The index of a track is there exactly where `TRACKNUMBER` reads as an
/// index; its total is the one written with the number, or else the
/// number that `TRACKTOTAL` holds, or else the number that `TOTALTRACKS`
/// holds.
pub proof fn law_vorbis_track_index_fields<R: CommentReader>(reader: &R)
    ensures
        match first_value(reader.field("TRACKNUMBER"@)) {
            None => vorbis_track_index(reader) is None,
            Some(v) => match index_numbers(v) {
                None => vorbis_track_index(reader) is None,
                Some(ix) => vorbis_track_index(reader) == Some(
                    Index {
                        number: ix.number,
                        total: match ix.total {
                            Some(t) => Some(t),
                            None => match first_value(reader.field("TRACKTOTAL"@)) {
                                Some(t) if parse_u16(t) is Some => parse_u16(t),
                                _ => match first_value(reader.field("TOTALTRACKS"@)) {
                                    Some(t) => parse_u16(t),
                                    None => None,
                                },
                            },
                        },
                    },
                ),
            },
        },
{
}

/// The index of a disc is there exactly where `DISCNUMBER` reads as an
/// index; its total is the one written with the number, or else the number
/// that `DISCTOTAL` holds, or else the number that `TOTALDISCS` holds.
pub proof fn law_vorbis_disc_index_fields<R: CommentReader>(reader: &R)
    ensures
        match first_value(reader.field("DISCNUMBER"@)) {
            None => vorbis_disc_index(reader) is None,
            Some(v) => match index_numbers(v) {
                None => vorbis_disc_index(reader) is None,
                Some(ix) => vorbis_disc_index(reader) == Some(
                    Index {
                        number: ix.number,
                        total: match ix.total {
                            Some(t) => Some(t),
                            None => match first_value(reader.field("DISCTOTAL"@)) {
                                Some(t) if parse_u16(t) is Some => parse_u16(t),
                                _ => match first_value(reader.field("TOTALDISCS"@)) {
                                    Some(t) => parse_u16(t),
                                    None => None,
                                },
                            },
                        },
                    },
                ),
            },
        },
{
}

/// The index of a movement is there exactly where `MOVEMENT` reads as an
/// index; its total is the one written with the number, or else the
/// number that `MOVEMENTTOTAL` holds.
pub proof fn law_vorbis_movement_index_fields<R: CommentReader>(reader: &R)
    ensures
        match first_value(reader.field("MOVEMENT"@)) {
            None => vorbis_movement_index(reader) is None,
            Some(v) => match index_numbers(v) {
                None => vorbis_movement_index(reader) is None,
                Some(ix) => vorbis_movement_index(reader) == Some(
                    Index {
                        number: ix.number,
                        total: match ix.total {
                            Some(t) => Some(t),
                            None => match first_value(reader.field("MOVEMENTTOTAL"@)) {
                                Some(t) => parse_u16(t),
                                None => None,
                            },
                        },
                    },
                ),
            },
        },
{
}

/// The actors of a track are the values of `ARTIST`, `COMPOSER`,
/// `CONDUCTOR`, `PRODUCER` and `REMIXER`, in this order, each with its
/// role.
pub proof fn law_vorbis_track_actor_fields<R: CommentReader>(reader: &R)
    ensures
        names_and_roles(vorbis_track_actors(reader)) == with_role(field_values(reader.field("ARTIST"@)), ActorRole::Artist)
            + with_role(field_values(reader.field("COMPOSER"@)), ActorRole::Composer) + with_role(
            field_values(reader.field("CONDUCTOR"@)),
            ActorRole::Conductor,
        ) + with_role(field_values(reader.field("PRODUCER"@)), ActorRole::Producer) + with_role(
            field_values(reader.field("REMIXER"@)),
            ActorRole::Remixer,
        ),
{
    let empty = Seq::<ActorView>::empty();
    let a = field_values(reader.field("ARTIST"@));
    let c = field_values(reader.field("COMPOSER"@));
    let d = field_values(reader.field("CONDUCTOR"@));
    let p = field_values(reader.field("PRODUCER"@));
    let r = field_values(reader.field("REMIXER"@));
    let s1 = push_actor_views(empty, ActorRole::Artist, a);
    let s2 = push_actor_views(s1, ActorRole::Composer, c);
    let s3 = push_actor_views(s2, ActorRole::Conductor, d);
    let s4 = push_actor_views(s3, ActorRole::Producer, p);
    law_push_actor_views_names(empty, ActorRole::Artist, a);
    law_push_actor_views_names(s1, ActorRole::Composer, c);
    law_push_actor_views_names(s2, ActorRole::Conductor, d);
    law_push_actor_views_names(s3, ActorRole::Producer, p);
    law_push_actor_views_names(s4, ActorRole::Remixer, r);
    assert(names_and_roles(empty) =~= Seq::empty());
    assert(Seq::<(Seq<char>, ActorRole)>::empty() + with_role(a, ActorRole::Artist) =~= with_role(a, ActorRole::Artist));
}

/// The titles of a track are the first values of `TITLE`, `SUBTITLE`,
/// `WORK` and `MOVEMENTNAME` that are there, in this order, as main title,
/// subtitle, work and movement.
pub proof fn law_vorbis_title_fields<R: CommentReader>(reader: &R)
    ensures
        vorbis_track_titles(reader) == (match first_value(reader.field("TITLE"@)) {
            Some(t) => seq![(t, TitleKind::Main)],
            None => Seq::empty(),
        }) + (match first_value(reader.field("SUBTITLE"@)) {
            Some(t) => seq![(t, TitleKind::Sub)],
            None => Seq::empty(),
        }) + (match first_value(reader.field("WORK"@)) {
            Some(t) => seq![(t, TitleKind::Work)],
            None => Seq::empty(),
        }) + (match first_value(reader.field("MOVEMENTNAME"@)) {
            Some(t) => seq![(t, TitleKind::Movement)],
            None => Seq::empty(),
        }),
        vorbis_album_titles(reader) == (match first_value(reader.field("ALBUM"@)) {
            Some(t) => seq![(t, TitleKind::Main)],
            None => Seq::<(Seq<char>, TitleKind)>::empty(),
        }),
{
}

/// The values of a field, none if it is not there.
fn read_all_values<R: CommentReader>(reader: &R, key: &str) -> (values: Vec<String>)
    ensures
        values.deep_view() == field_values(reader.field(key@)),
{
    match reader.read_values(key) {
        Some(values) => values,
        None => {
            let values: Vec<String> = Vec::new();
            assert(values.deep_view() =~= Seq::empty());
            values
        },
    }
}

pub fn import_track_actors<R: CommentReader>(reader: &R) -> (actors: Vec<Actor>)
    ensures
        actors_view(actors@) == vorbis_track_actors(reader),
        no_role_notes(actors@),
{
    let mut actors: Vec<Actor> = Vec::new();
    assert(actors_view(actors@) =~= Seq::empty());
    push_actor_names(&mut actors, ActorRole::Artist, &read_all_values(reader, "ARTIST"));
    push_actor_names(&mut actors, ActorRole::Composer, &read_all_values(reader, "COMPOSER"));
    push_actor_names(&mut actors, ActorRole::Conductor, &read_all_values(reader, "CONDUCTOR"));
    push_actor_names(&mut actors, ActorRole::Producer, &read_all_values(reader, "PRODUCER"));
    push_actor_names(&mut actors, ActorRole::Remixer, &read_all_values(reader, "REMIXER"));
    actors
}

/// The first field that is there, of two.
pub open spec fn or_field(first: Option<Seq<Seq<char>>>, second: Option<Seq<Seq<char>>>) -> Option<Seq<Seq<char>>> {
    if first is Some {
        first
    } else {
        second
    }
}

/// The artists of an album: every value of the first of `ALBUMARTIST`,
/// `ALBUM_ARTIST`, `ALBUM ARTIST` and `ENSEMBLE` that is there.
pub open spec fn vorbis_album_actors<R: CommentReader>(reader: &R) -> Seq<ActorView> {
    let field = or_field(
        reader.field("ALBUMARTIST"@),
        or_field(reader.field("ALBUM_ARTIST"@), or_field(reader.field("ALBUM ARTIST"@), reader.field("ENSEMBLE"@))),
    );
    push_actor_views(Seq::empty(), ActorRole::Artist, field_values(field))
}

pub fn import_album_actors<R: CommentReader>(reader: &R) -> (actors: Vec<Actor>)
    ensures
        actors_view(actors@) == vorbis_album_actors(reader),
        no_role_notes(actors@),
{
    let values = match reader.read_values("ALBUMARTIST") {
        Some(values) => values,
        None => match reader.read_values("ALBUM_ARTIST") {
            Some(values) => values,
            None => match reader.read_values("ALBUM ARTIST") {
                Some(values) => values,
                None => read_all_values(reader, "ENSEMBLE"),
            },
        },
    };
    let mut actors: Vec<Actor> = Vec::new();
    assert(actors_view(actors@) =~= Seq::empty());
    push_actor_names(&mut actors, ActorRole::Artist, &values);
    actors
}

/// The release date from the year tag `DATE`.
pub open spec fn vorbis_released_at<R: CommentReader>(reader: &R) -> Option<DateOrDateTime> {
    match first_of(reader, "DATE"@) {
        Some(date) => year_tag_release(year_tag_date(date), rfc3339_date_time(date), naive_date_time(date)),
        None => None,
    }
}

pub fn import_released_at<R: CommentReader>(reader: &R) -> (released_at: Option<DateOrDateTime>)
    ensures
        released_at == vorbis_released_at(reader),
{
    match reader.read_first_value("DATE") {
        Some(date) => parse_year_tag(date),
        None => None,
    }
}

/// `u16::from_str` on an optional value.
pub open spec fn parsed_u16(value: Option<Seq<char>>) -> Option<u16> {
    match value {
        Some(v) => parse_u16(v),
        None => None,
    }
}

/// An index, completed by a total where it has none.
pub open spec fn with_total(index: Option<Index>, total: Option<u16>) -> Option<Index> {
    match index {
        Some(index) => Some(
            if index.total is Some {
                index
            } else {
                Index { number: index.number, total }
            },
        ),
        None => None,
    }
}

pub open spec fn parsed_index(value: Option<Seq<char>>) -> Option<Index> {
    match value {
        Some(v) => index_numbers(v),
        None => None,
    }
}

/// The first total of two that can be read.
pub open spec fn either_total(first: Option<u16>, second: Option<u16>) -> Option<u16> {
    if first is Some {
        first
    } else {
        second
    }
}

/// The index of a track: `TRACKNUMBER` as `N` or `N/M`, completed by
/// `TRACKTOTAL` or else `TOTALTRACKS`.
pub open spec fn vorbis_track_index<R: CommentReader>(reader: &R) -> Option<Index> {
    with_total(
        parsed_index(first_of(reader, "TRACKNUMBER"@)),
        either_total(parsed_u16(first_of(reader, "TRACKTOTAL"@)), parsed_u16(first_of(reader, "TOTALTRACKS"@))),
    )
}

/// The index of a disc: `DISCNUMBER` as `N` or `N/M`, completed by
/// `DISCTOTAL` or else `TOTALDISCS`.
pub open spec fn vorbis_disc_index<R: CommentReader>(reader: &R) -> Option<Index> {
    with_total(
        parsed_index(first_of(reader, "DISCNUMBER"@)),
        either_total(parsed_u16(first_of(reader, "DISCTOTAL"@)), parsed_u16(first_of(reader, "TOTALDISCS"@))),
    )
}

/// The index of a movement: `MOVEMENT` as `N` or `N/M`, completed by
/// `MOVEMENTTOTAL`.
pub open spec fn vorbis_movement_index<R: CommentReader>(reader: &R) -> Option<Index> {
    with_total(parsed_index(first_of(reader, "MOVEMENT"@)), parsed_u16(first_of(reader, "MOVEMENTTOTAL"@)))
}

fn read_u16<R: CommentReader>(reader: &R, key: &str) -> (value: Option<u16>)
    ensures
        value == parsed_u16(first_of(reader, key@)),
{
    match reader.read_first_value(key) {
        Some(v) => {
            let chars = collect_chars(v);
            assert(chars@.subrange(0, chars.len() as int) =~= v@);
            crate::text::parse_u16_in(&chars, 0, chars.len())
        },
        None => None,
    }
}

/// Reads an index from the field `number_key`, completed by the first total
/// that can be read from `total_key` and `alt_total_key`, if given.
fn read_index<R: CommentReader>(reader: &R, number_key: &str, total_key: &str, alt_total_key: Option<&str>) -> (index: Option<Index>)
    ensures
        index == with_total(
            parsed_index(first_of(reader, number_key@)),
            either_total(
                parsed_u16(first_of(reader, total_key@)),
                match alt_total_key {
                    Some(k) => parsed_u16(first_of(reader, k@)),
                    None => None,
                },
            ),
        ),
{
    let index = match reader.read_first_value(number_key) {
        Some(v) => parse_index_numbers(v),
        None => None,
    };
    match index {
        Some(index) => {
            if index.total.is_some() {
                Some(index)
            } else {
                let total = match read_u16(reader, total_key) {
                    Some(total) => Some(total),
                    None => match alt_total_key {
                        Some(k) => read_u16(reader, k),
                        None => None,
                    },
                };
                Some(Index { number: index.number, total })
            }
        },
        None => None,
    }
}

pub fn import_track_index<R: CommentReader>(reader: &R) -> (index: Option<Index>)
    ensures
        index == vorbis_track_index(reader),
{
    read_index(reader, "TRACKNUMBER", "TRACKTOTAL", Some("TOTALTRACKS"))
}

pub fn import_disc_index<R: CommentReader>(reader: &R) -> (index: Option<Index>)
    ensures
        index == vorbis_disc_index(reader),
{
    read_index(reader, "DISCNUMBER", "DISCTOTAL", Some("TOTALDISCS"))
}

pub fn import_movement_index<R: CommentReader>(reader: &R) -> (index: Option<Index>)
    ensures
        index == vorbis_movement_index(reader),
{
    read_index(reader, "MOVEMENT", "MOVEMENTTOTAL", None)
}

/// The labels of a faceted field: all its values, each split at the
/// separator of the facet.
pub fn import_faceted_text_tags(values: &Vec<String>, separator: &Option<String>) -> (labels: Vec<String>)
    ensures
        labels.deep_view() == split_labels(values.deep_view(), opt_string_view(*separator)),
{
    split_tag_labels(values, separator_str(separator))
}

/// What the Vorbis comments of a track say of it, following the MusicBrainz
/// Picard mapping: titles, actors, album, release, key signature, indexes,
/// and the faceted labels of comments (`COMMENT`, else `DESCRIPTION`),
/// genres, moods and groupings.
pub open spec fn vorbis_import<R: CommentReader>(reader: &R, config: FacetedTagMappingConfigView) -> ImportedTrackView {
    ImportedTrackView {
        titles: vorbis_track_titles(reader),
        actors: vorbis_track_actors(reader),
        album_titles: vorbis_album_titles(reader),
        album_actors: vorbis_album_actors(reader),
        album_kind: if first_of(reader, "COMPILATION"@) matches Some(v) && crate::text::parse_u8(v) == Some(1u8) {
            Some(AlbumKind::Compilation)
        } else {
            None
        },
        released_at: vorbis_released_at(reader),
        released_by: first_of(reader, "LABEL"@),
        copyright: first_of(reader, "COPYRIGHT"@),
        key_signature: match first_of(reader, "INITIALKEY"@) {
            Some(v) if key_signature_of(v) is Some => key_signature_of(v),
            _ => match first_of(reader, "KEY"@) {
                Some(v) => key_signature_of(v),
                None => None,
            },
        },
        track_index: vorbis_track_index(reader),
        disc_index: vorbis_disc_index(reader),
        movement_index: vorbis_movement_index(reader),
        comments: split_labels(
            field_values(or_field(reader.field("COMMENT"@), reader.field("DESCRIPTION"@))),
            config.comment_separator,
        ),
        genres: split_labels(field_values(reader.field("GENRE"@)), config.genre_separator),
        moods: split_labels(field_values(reader.field("MOOD"@)), config.mood_separator),
        groupings: split_labels(field_values(reader.field("GROUPING"@)), config.grouping_separator),
    }
}

/// Imports the metadata of a track from its Vorbis comments.
pub fn import_vorbis_track<R: CommentReader>(reader: &R, config: &FacetedTagMappingConfig) -> (track: ImportedTrack)
    ensures
        track@ == vorbis_import(reader, config@),
        no_role_notes(track.actors@),
        no_role_notes(track.album_actors@),
{
    let comment_values = match reader.read_values("COMMENT") {
        Some(values) => values,
        None => read_all_values(reader, "DESCRIPTION"),
    };
    ImportedTrack {
        titles: import_track_titles(reader),
        actors: import_track_actors(reader),
        album_titles: import_album_titles(reader),
        album_actors: import_album_actors(reader),
        album_kind: import_album_kind(reader),
        released_at: import_released_at(reader),
        released_by: import_released_by(reader),
        copyright: import_release_copyright(reader),
        key_signature: import_key_signature(reader),
        track_index: import_track_index(reader),
        disc_index: import_disc_index(reader),
        movement_index: import_movement_index(reader),
        comments: import_faceted_text_tags(&comment_values, &config.comment_separator),
        genres: import_faceted_text_tags(&read_all_values(reader, "GENRE"), &config.genre_separator),
        moods: import_faceted_text_tags(&read_all_values(reader, "MOOD"), &config.mood_separator),
        groupings: import_faceted_text_tags(&read_all_values(reader, "GROUPING"), &config.grouping_separator),
    }
}


/// The number of channels, the sample rate in Hz and the total number of
/// samples of the first stream information block of a FLAC tag, if it has
/// one.
pub uninterp spec fn flac_streaminfo(tag: metaflac::Tag) -> Option<(u8, u32, u64)>;

/// `metaflac::Tag::get_streaminfo`: the first stream information block,
/// of which the number of channels, the sample rate and the total number
/// of samples are taken.
#[verifier::external_body]
fn flac_stream_properties(tag: &metaflac::Tag) -> (info: Option<(u8, u32, u64)>)
    ensures
        info == flac_streaminfo(*tag),
{
    tag.get_streaminfo().map(|info| (info.num_channels, info.sample_rate, info.total_samples))
}

/// The audio properties of a FLAC stream. Its duration in seconds is the
/// total number of samples divided by the sample rate.
#[derive(Debug, Clone, Copy, PartialEq, Eq, Structural)]
pub struct FlacAudio {
    pub channels: u8,
    pub sample_rate_hz: Option<u32>,
    pub total_samples: Option<u64>,
}

/// The audio properties that stream information gives: the channels, and
/// sample rate and length only where the sample rate is known (not 0).
pub open spec fn audio_of_streaminfo(info: Option<(u8, u32, u64)>) -> Option<FlacAudio> {
    match info {
        Some((channels, sample_rate, total_samples)) => Some(
            FlacAudio {
                channels,
                sample_rate_hz: if sample_rate > 0 {
                    Some(sample_rate)
                } else {
                    None
                },
                total_samples: if sample_rate > 0 {
                    Some(total_samples)
                } else {
                    None
                },
            },
        ),
        None => None,
    }
}

/// The audio properties from stream information: channels, sample rate
/// and total number of samples.
pub fn audio_from_streaminfo(info: Option<(u8, u32, u64)>) -> (audio: Option<FlacAudio>)
    ensures
        audio == audio_of_streaminfo(info),
{
    match info {
        Some((channels, sample_rate, total_samples)) => {
            let known = sample_rate > 0;
            Some(
                FlacAudio {
                    channels,
                    sample_rate_hz: if known {
                        Some(sample_rate)
                    } else {
                        None
                    },
                    total_samples: if known {
                        Some(total_samples)
                    } else {
                        None
                    },
                },
            )
        },
        None => None,
    }
}

/// The audio properties of a FLAC file from its tag.
pub fn import_flac_audio(tag: &metaflac::Tag) -> (audio: Option<FlacAudio>)
    ensures
        audio == audio_of_streaminfo(flac_streaminfo(*tag)),
{
    audio_from_streaminfo(flac_stream_properties(tag))
}


/// Imports tracks from FLAC files.
pub struct ImportTrack;

impl ImportTrack {
    /// The metadata of a track from the Vorbis comments of its FLAC tag, and
    /// the audio properties from its stream information.
    pub fn import_track(&self, tag: &metaflac::Tag, config: &FacetedTagMappingConfig) -> (imported: (
        ImportedTrack,
        Option<FlacAudio>,
    ))
        ensures
            imported.0@ == vorbis_import(tag, config@),
            no_role_notes(imported.0.actors@),
            no_role_notes(imported.0.album_actors@),
            imported.1 == audio_of_streaminfo(flac_streaminfo(*tag)),
    {
        (import_vorbis_track(tag, config), import_flac_audio(tag))
    }
}

} // verus!
