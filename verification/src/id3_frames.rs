//! Track metadata from the frames of an ID3v2 tag, following the
//! MusicBrainz Picard mapping and, on request, the use of the grouping and
//! work frames by iTunes 12.5.4 and newer.

use vstd::prelude::*;

use crate::import::{ImportTrackOptions, ITUNES_ID3V2_GROUPING_MOVEMENT_WORK_BITS};
use crate::media_util::{key_signature_of, parse_key_signature, Actor, ActorRole};
use crate::tag_import::{
    actor_runs, actors_view, days_in_month, law_push_actor_views_names, names_and_roles, with_role, no_role_notes, has_role, law_push_actor_views_keeps_runs, ActorView, opt_str_view, opt_string_view, optional_title, parse_index_numbers,
    push_actor_names, push_actor_views, push_optional_title, separator_str, split_labels,
    split_tag_labels, import_faceted_tags, titles_view, value_labels, AlbumKind,
    CalendarDate, DateOrDateTime, FacetedTagMappingConfig, FacetedTagMappingConfigView,
    ImportedTrack, ImportedTrackView, Index, Title, TitleKind,
};
use crate::text::{collect_chars, parse_u8, parse_u8_in, split_on, split_str, str_eq};
use crate::vorbis::parsed_index;

verus! {

/// A text frame: its four-character id and its text, in which several
/// values are separated by NUL characters.
#[derive(Debug, Clone)]
pub struct TextFrame {
    pub id: String,
    pub text: String,
}

/// A user-defined text frame (`TXXX`) or a comment frame (`COMM`): its
/// description and its text.
#[derive(Debug, Clone)]
pub struct DescribedText {
    pub description: String,
    pub text: String,
}

/// A time stamp of a date frame; the parts that it does not give are
/// `None`.
#[derive(Debug, Clone, Copy, PartialEq, Eq, Structural)]
pub struct Timestamp {
    pub year: i32,
    pub month: Option<u8>,
    pub day: Option<u8>,
    pub hour: Option<u8>,
    pub minute: Option<u8>,
    pub second: Option<u8>,
}

/// The frames of an ID3v2 tag that track metadata is read from, in the
/// order of the tag, with the numbers and dates that the tag reader parsed
/// from `TRCK`, `TPOS`, `TDRL` and `TDRC`.
pub struct Id3Frames {
    pub text_frames: Vec<TextFrame>,
    pub extended_texts: Vec<DescribedText>,
    pub comments: Vec<DescribedText>,
    pub date_released: Option<Timestamp>,
    pub date_recorded: Option<Timestamp>,
    pub track: Option<u32>,
    pub total_tracks: Option<u32>,
    pub disc: Option<u32>,
    pub total_discs: Option<u32>,
}

pub struct Id3FramesView {
    pub text_frames: Seq<(Seq<char>, Seq<char>)>,
    pub extended_texts: Seq<(Seq<char>, Seq<char>)>,
    pub comments: Seq<(Seq<char>, Seq<char>)>,
    pub date_released: Option<Timestamp>,
    pub date_recorded: Option<Timestamp>,
    pub track: Option<u32>,
    pub total_tracks: Option<u32>,
    pub disc: Option<u32>,
    pub total_discs: Option<u32>,
}

pub open spec fn text_frames_view(frames: Seq<TextFrame>) -> Seq<(Seq<char>, Seq<char>)> {
    frames.map_values(|f: TextFrame| (f.id@, f.text@))
}

pub open spec fn described_view(texts: Seq<DescribedText>) -> Seq<(Seq<char>, Seq<char>)> {
    texts.map_values(|t: DescribedText| (t.description@, t.text@))
}

impl View for Id3Frames {
    type V = Id3FramesView;

    open spec fn view(&self) -> Id3FramesView {
        Id3FramesView {
            text_frames: text_frames_view(self.text_frames@),
            extended_texts: described_view(self.extended_texts@),
            comments: described_view(self.comments@),
            date_released: self.date_released,
            date_recorded: self.date_recorded,
            track: self.track,
            total_tracks: self.total_tracks,
            disc: self.disc,
            total_discs: self.total_discs,
        }
    }
}

/// The values of all frames with the id `id`, in order, each frame's text
/// split at its NUL characters.
pub open spec fn frame_values(frames: Seq<(Seq<char>, Seq<char>)>, id: Seq<char>) -> Seq<Seq<char>>
    decreases frames.len(),
{
    if frames.len() == 0 {
        Seq::empty()
    } else {
        let rest = frame_values(frames.drop_last(), id);
        if frames.last().0 == id {
            rest + split_on(frames.last().1, seq!['\0'])
        } else {
            rest
        }
    }
}

/// The first value of the frames with the id `id`.
pub open spec fn first_frame_value(frames: Seq<(Seq<char>, Seq<char>)>, id: Seq<char>) -> Option<Seq<char>> {
    let values = frame_values(frames, id);
    if values.len() > 0 {
        Some(values[0])
    } else {
        None
    }
}

/// The text of the first entry with the key `key`.
pub open spec fn first_with_key(entries: Seq<(Seq<char>, Seq<char>)>, key: Seq<char>) -> Option<Seq<char>>
    decreases entries.len(),
{
    if entries.len() == 0 {
        None
    } else if entries[0].0 == key {
        Some(entries[0].1)
    } else {
        first_with_key(entries.drop_first(), key)
    }
}

/// The text of the last entry with the key `key`.
pub open spec fn last_with_key(entries: Seq<(Seq<char>, Seq<char>)>, key: Seq<char>) -> Option<Seq<char>>
    decreases entries.len(),
{
    if entries.len() == 0 {
        None
    } else if entries.last().0 == key {
        Some(entries.last().1)
    } else {
        last_with_key(entries.drop_last(), key)
    }
}

/// The values of all text frames with the id `id`.
pub fn text_frame_values(frames: &Vec<TextFrame>, id: &str) -> (values: Vec<String>)
    ensures
        values.deep_view() == frame_values(text_frames_view(frames@), id@),
{
    let nul = "\u{0}";
    proof {
        reveal_strlit("\u{0}");
    }
    assert(nul@ =~= seq!['\0']);
    let mut values: Vec<String> = Vec::new();
    let mut i: usize = 0;
    while i < frames.len()
        invariant
            i <= frames.len(),
            nul@ == seq!['\0'],
            values.deep_view() == frame_values(text_frames_view(frames@).take(i as int), id@),
        decreases frames.len() - i,
    {
        let ghost before = values.deep_view();
        proof {
            assert(text_frames_view(frames@).take(i + 1).drop_last() =~= text_frames_view(frames@).take(i as int));
        }
        if str_eq(frames[i].id.as_str(), id) {
            let mut more = split_str(frames[i].text.as_str(), nul);
            let ghost added = more.deep_view();
            values.append(&mut more);
            assert(values.deep_view() =~= before + added);
        }
        i = i + 1;
    }
    assert(text_frames_view(frames@).take(i as int) =~= text_frames_view(frames@));
    values
}

/// The first value of the text frames with the id `id`.
pub fn first_text_frame(frames: &Vec<TextFrame>, id: &str) -> (value: Option<String>)
    ensures
        opt_string_view(value) == first_frame_value(text_frames_view(frames@), id@),
{
    let values = text_frame_values(frames, id);
    if values.len() > 0 {
        assert(values.deep_view()[0] == values@[0]@);
        Some(values[0].clone())
    } else {
        None
    }
}

/// The text of the first frame with the id `id`, as a whole.
fn frame_text(frames: &Vec<TextFrame>, id: &str) -> (text: Option<String>)
    ensures
        opt_string_view(text) == first_with_key(text_frames_view(frames@), id@),
{
    let ghost view = text_frames_view(frames@);
    assert(view.skip(0) =~= view);
    let mut i: usize = 0;
    while i < frames.len()
        invariant
            i <= frames.len(),
            view == text_frames_view(frames@),
            first_with_key(view.skip(i as int), id@) == first_with_key(view, id@),
        decreases frames.len() - i,
    {
        assert(view.skip(i as int).drop_first() =~= view.skip(i + 1));
        assert(view.skip(i as int)[0] == view[i as int]);
        if str_eq(frames[i].id.as_str(), id) {
            return Some(frames[i].text.clone());
        }
        i = i + 1;
    }
    None
}

/// The text of the first entry with the description `key`.
fn first_described_text(texts: &Vec<DescribedText>, key: &str) -> (text: Option<String>)
    ensures
        opt_string_view(text) == first_with_key(described_view(texts@), key@),
{
    let ghost view = described_view(texts@);
    assert(view.skip(0) =~= view);
    let mut i: usize = 0;
    while i < texts.len()
        invariant
            i <= texts.len(),
            view == described_view(texts@),
            first_with_key(view.skip(i as int), key@) == first_with_key(view, key@),
        decreases texts.len() - i,
    {
        assert(view.skip(i as int).drop_first() =~= view.skip(i + 1));
        assert(view.skip(i as int)[0] == view[i as int]);
        if str_eq(texts[i].description.as_str(), key) {
            return Some(texts[i].text.clone());
        }
        i = i + 1;
    }
    None
}

/// The text of the last entry with the key `key`.
fn last_described_text(texts: &Vec<DescribedText>, key: &str) -> (text: Option<String>)
    ensures
        opt_string_view(text) == last_with_key(described_view(texts@), key@),
{
    let mut last: Option<String> = None;
    let mut i: usize = 0;
    while i < texts.len()
        invariant
            i <= texts.len(),
            opt_string_view(last) == last_with_key(described_view(texts@).take(i as int), key@),
        decreases texts.len() - i,
    {
        assert(described_view(texts@).take(i + 1).drop_last() =~= described_view(texts@).take(i as int));
        if str_eq(texts[i].description.as_str(), key) {
            last = Some(texts[i].text.clone());
        }
        i = i + 1;
    }
    assert(described_view(texts@).take(i as int) =~= described_view(texts@));
    last
}

/// A day of the proleptic Gregorian calendar in the range of years that
/// dates can be formed in.
pub open spec fn is_calendar_day(year: int, month: int, day: int) -> bool {
    -262144 <= year <= 262143 && 1 <= month <= 12 && 1 <= day <= days_in_month(year, month)
}

pub open spec fn year_date(year: i32, month: u8, day: u8) -> DateOrDateTime {
    DateOrDateTime::Date(CalendarDate { year, month, day })
}

/// The release date that a time stamp gives: a date and time of day where
/// it has a valid day and a valid time, a date where it has a valid day,
/// otherwise year and month where the month is valid, otherwise the year.
pub open spec fn timestamp_date(ts: Timestamp) -> DateOrDateTime {
    let year_month = |month: u8|
        if 1 <= month <= 12 {
            year_date(ts.year, month, 0)
        } else {
            year_date(ts.year, 0, 0)
        };
    match (ts.month, ts.day) {
        (Some(month), Some(day)) => if is_calendar_day(ts.year as int, month as int, day as int) {
            match (ts.hour, ts.minute, ts.second) {
                (Some(hour), Some(minute), Some(second)) => if hour < 24 && minute < 60 && second < 60 {
                    DateOrDateTime::DateTime {
                        date: CalendarDate { year: ts.year, month, day },
                        hour,
                        minute,
                        second,
                        nanosecond: 0,
                        offset_seconds: 0,
                    }
                } else {
                    year_date(ts.year, month, day)
                },
                _ => year_date(ts.year, month, day),
            }
        } else {
            year_month(month)
        },
        (Some(month), None) => year_month(month),
        _ => year_date(ts.year, 0, 0),
    }
}

pub fn parse_timestamp(ts: Timestamp) -> (date: DateOrDateTime)
    ensures
        date == timestamp_date(ts),
{
    let year_month = |month: u8| -> (date: DateOrDateTime)
        ensures
            date == (if 1 <= month <= 12 {
                year_date(ts.year, month, 0)
            } else {
                year_date(ts.year, 0, 0)
            }),
        {
            if 1 <= month && month <= 12 {
                DateOrDateTime::Date(CalendarDate { year: ts.year, month, day: 0 })
            } else {
                DateOrDateTime::Date(CalendarDate { year: ts.year, month: 0, day: 0 })
            }
        };
    match (ts.month, ts.day) {
        (Some(month), Some(day)) => {
            let leap = ts.year % 4 == 0 && (ts.year % 100 != 0 || ts.year % 400 == 0);
            let days: u8 = if month == 2 {
                if leap {
                    29
                } else {
                    28
                }
            } else if month == 4 || month == 6 || month == 9 || month == 11 {
                30
            } else {
                31
            };
            if -262144 <= ts.year && ts.year <= 262143 && 1 <= month && month <= 12 && 1 <= day && day <= days {
                match (ts.hour, ts.minute, ts.second) {
                    (Some(hour), Some(minute), Some(second)) => if hour < 24 && minute < 60 && second < 60 {
                        DateOrDateTime::DateTime {
                        date: CalendarDate { year: ts.year, month, day },
                        hour,
                        minute,
                        second,
                        nanosecond: 0,
                        offset_seconds: 0,
                    }
                    } else {
                        DateOrDateTime::Date(CalendarDate { year: ts.year, month, day })
                    },
                    _ => DateOrDateTime::Date(CalendarDate { year: ts.year, month, day }),
                }
            } else {
                year_month(month)
            }
        },
        (Some(month), None) => year_month(month),
        _ => DateOrDateTime::Date(CalendarDate { year: ts.year, month: 0, day: 0 }),
    }
}


pub open spec fn optional_names(name: Option<Seq<char>>) -> Seq<Seq<char>> {
    match name {
        Some(name) => seq![name],
        None => Seq::empty(),
    }
}

/// The low 16 bits of a number.
pub open spec fn low16(n: Option<u32>) -> Option<u16> {
    match n {
        Some(n) => Some((n % 65536) as u16),
        None => None,
    }
}

/// An index from a number and a total, if either is given.
pub open spec fn numbered_index(number: Option<u32>, total: Option<u32>) -> Option<Index> {
    if number is Some || total is Some {
        Some(Index { number: low16(number), total: low16(total) })
    } else {
        None
    }
}

pub open spec fn itunes_grouping(options: u16) -> bool {
    options & ITUNES_ID3V2_GROUPING_MOVEMENT_WORK_BITS == ITUNES_ID3V2_GROUPING_MOVEMENT_WORK_BITS
}

/// What the frames of an ID3v2 tag say of a track: the title `TIT2`,
/// subtitle `TSST`, movement name `MVNM` and work, which iTunes keeps in
/// `TIT1` and others in the user text `WORK`; the artist `TPE1`, composers
/// `TCOM` and conductors `TPE3`; album `TALB` and album artist `TPE2`; a
/// compilation if `TCMP` holds 1; the release date `TDRL`, or else the
/// recording date `TDRC`; label `TPUB` and copyright `TCOP`; key `TKEY`;
/// track and disc numbers and the movement index `MVIN`; the last comment
/// without description; and the faceted labels of genres `TCON`, moods
/// `TMOO` and groupings, which iTunes keeps in `GRP1` and others in `TIT1`.
pub open spec fn id3_import(frames: Id3FramesView, config: FacetedTagMappingConfigView, options: u16) -> ImportedTrackView {
    let tf = frames.text_frames;
    let itunes = itunes_grouping(options);
    ImportedTrackView {
        titles: optional_title(first_with_key(tf, "TIT2"@), TitleKind::Main) + optional_title(
            first_frame_value(tf, "TSST"@),
            TitleKind::Sub,
        ) + optional_title(first_frame_value(tf, "MVNM"@), TitleKind::Movement) + optional_title(
            if itunes {
                first_frame_value(tf, "TIT1"@)
            } else {
                first_with_key(frames.extended_texts, "WORK"@)
            },
            TitleKind::Work,
        ),
        actors: push_actor_views(
            push_actor_views(
                push_actor_views(Seq::empty(), ActorRole::Artist, optional_names(first_with_key(tf, "TPE1"@))),
                ActorRole::Composer,
                frame_values(tf, "TCOM"@),
            ),
            ActorRole::Conductor,
            frame_values(tf, "TPE3"@),
        ),
        album_titles: optional_title(first_with_key(tf, "TALB"@), TitleKind::Main),
        album_actors: push_actor_views(Seq::empty(), ActorRole::Artist, optional_names(first_with_key(tf, "TPE2"@))),
        album_kind: if first_frame_value(tf, "TCMP"@) matches Some(v) && parse_u8(v) == Some(1u8) {
            Some(AlbumKind::Compilation)
        } else {
            None
        },
        released_at: match frames.date_released {
            Some(ts) => Some(timestamp_date(ts)),
            None => match frames.date_recorded {
                Some(ts) => Some(timestamp_date(ts)),
                None => None,
            },
        },
        released_by: first_frame_value(tf, "TPUB"@),
        copyright: first_frame_value(tf, "TCOP"@),
        key_signature: match first_frame_value(tf, "TKEY"@) {
            Some(v) => key_signature_of(v),
            None => None,
        },
        track_index: numbered_index(frames.track, frames.total_tracks),
        disc_index: numbered_index(frames.disc, frames.total_discs),
        movement_index: parsed_index(first_frame_value(tf, "MVIN"@)),
        comments: match last_with_key(frames.comments, Seq::empty()) {
            Some(text) => value_labels(text, None),
            None => Seq::empty(),
        },
        genres: split_labels(frame_values(tf, "TCON"@), config.genre_separator),
        moods: split_labels(frame_values(tf, "TMOO"@), config.mood_separator),
        groupings: split_labels(
            frame_values(tf, if itunes { "GRP1"@ } else { "TIT1"@ }),
            config.grouping_separator,
        ),
    }
}

/// The imported actors of a track stand in one run per role, artist,
/// composers and conductors, each actor a summary exactly when it is the
/// only one of its role; so does the album artist.
pub proof fn law_id3_actors_in_runs(frames: Id3FramesView, config: FacetedTagMappingConfigView, options: u16)
    ensures
        actor_runs(id3_import(frames, config, options).actors),
        actor_runs(id3_import(frames, config, options).album_actors),
{
    let empty = Seq::<ActorView>::empty();
    assert(actor_runs(empty));
    assert forall|r: ActorRole| !has_role(empty, r) by {}
    let tf = frames.text_frames;
    let artists = push_actor_views(empty, ActorRole::Artist, optional_names(first_with_key(tf, "TPE1"@)));
    law_push_actor_views_keeps_runs(empty, ActorRole::Artist, optional_names(first_with_key(tf, "TPE1"@)));
    assert(!has_role(artists, ActorRole::Composer) && !has_role(artists, ActorRole::Conductor));
    let composers = push_actor_views(artists, ActorRole::Composer, frame_values(tf, "TCOM"@));
    law_push_actor_views_keeps_runs(artists, ActorRole::Composer, frame_values(tf, "TCOM"@));
    assert(!has_role(composers, ActorRole::Conductor));
    law_push_actor_views_keeps_runs(composers, ActorRole::Conductor, frame_values(tf, "TPE3"@));
    law_push_actor_views_keeps_runs(empty, ActorRole::Artist, optional_names(first_with_key(tf, "TPE2"@)));
}

/// The track index is there where the tag gives a track number or a
/// number of tracks, and it carries both, each as its low 16 bits; the
/// same holds of the disc index with the disc number and number of discs.
pub proof fn law_id3_indexes(frames: Id3FramesView, config: FacetedTagMappingConfigView, options: u16)
    ensures
        (frames.track is Some || frames.total_tracks is Some) ==> id3_import(frames, config, options).track_index
            == Some(
            Index {
                number: match frames.track {
                    Some(n) => Some((n % 65536) as u16),
                    None => None,
                },
                total: match frames.total_tracks {
                    Some(n) => Some((n % 65536) as u16),
                    None => None,
                },
            },
        ),
        (frames.track is None && frames.total_tracks is None) ==> id3_import(frames, config, options).track_index is None,
        (frames.disc is Some || frames.total_discs is Some) ==> id3_import(frames, config, options).disc_index == Some(
            Index {
                number: match frames.disc {
                    Some(n) => Some((n % 65536) as u16),
                    None => None,
                },
                total: match frames.total_discs {
                    Some(n) => Some((n % 65536) as u16),
                    None => None,
                },
            },
        ),
        (frames.disc is None && frames.total_discs is None) ==> id3_import(frames, config, options).disc_index is None,
{
}

/// The actors of a track are the artist `TPE1`, the composers `TCOM` and
/// the conductors `TPE3`, in this order, each with its role; the album
/// artist is `TPE2`.
pub proof fn law_id3_actor_frames(frames: Id3FramesView, config: FacetedTagMappingConfigView, options: u16)
    ensures
        names_and_roles(id3_import(frames, config, options).actors) == with_role(
            optional_names(first_with_key(frames.text_frames, "TPE1"@)),
            ActorRole::Artist,
        ) + with_role(frame_values(frames.text_frames, "TCOM"@), ActorRole::Composer) + with_role(
            frame_values(frames.text_frames, "TPE3"@),
            ActorRole::Conductor,
        ),
        names_and_roles(id3_import(frames, config, options).album_actors) == with_role(
            optional_names(first_with_key(frames.text_frames, "TPE2"@)),
            ActorRole::Artist,
        ),
{
    let empty = Seq::<ActorView>::empty();
    let tf = frames.text_frames;
    let a = optional_names(first_with_key(tf, "TPE1"@));
    let s1 = push_actor_views(empty, ActorRole::Artist, a);
    let s2 = push_actor_views(s1, ActorRole::Composer, frame_values(tf, "TCOM"@));
    law_push_actor_views_names(empty, ActorRole::Artist, a);
    law_push_actor_views_names(s1, ActorRole::Composer, frame_values(tf, "TCOM"@));
    law_push_actor_views_names(s2, ActorRole::Conductor, frame_values(tf, "TPE3"@));
    law_push_actor_views_names(empty, ActorRole::Artist, optional_names(first_with_key(tf, "TPE2"@)));
    assert(names_and_roles(empty) =~= Seq::empty());
    assert(Seq::<(Seq<char>, ActorRole)>::empty() + with_role(a, ActorRole::Artist) =~= with_role(a, ActorRole::Artist));
    assert(Seq::<(Seq<char>, ActorRole)>::empty() + with_role(
        optional_names(first_with_key(tf, "TPE2"@)),
        ActorRole::Artist,
    ) =~= with_role(optional_names(first_with_key(tf, "TPE2"@)), ActorRole::Artist));
}

/// Where iTunes' mapping is asked for, the work is the first value of
/// `TIT1` and the groupings are the labels of `GRP1`; otherwise the work
/// is the user text `WORK` and the groupings are the labels of `TIT1`. The
/// release date is that of `TDRL`, or else that of `TDRC`.
pub proof fn law_id3_work_grouping_and_date(frames: Id3FramesView, config: FacetedTagMappingConfigView, options: u16)
    ensures
        options & ITUNES_ID3V2_GROUPING_MOVEMENT_WORK_BITS == ITUNES_ID3V2_GROUPING_MOVEMENT_WORK_BITS ==> {
            &&& id3_import(frames, config, options).groupings == split_labels(
                frame_values(frames.text_frames, "GRP1"@),
                config.grouping_separator,
            )
            &&& (first_frame_value(frames.text_frames, "TIT1"@) matches Some(w) ==> id3_import(
                frames,
                config,
                options,
            ).titles.last() == (w, TitleKind::Work))
        },
        options & ITUNES_ID3V2_GROUPING_MOVEMENT_WORK_BITS != ITUNES_ID3V2_GROUPING_MOVEMENT_WORK_BITS ==> {
            &&& id3_import(frames, config, options).groupings == split_labels(
                frame_values(frames.text_frames, "TIT1"@),
                config.grouping_separator,
            )
            &&& (first_with_key(frames.extended_texts, "WORK"@) matches Some(w) ==> id3_import(
                frames,
                config,
                options,
            ).titles.last() == (w, TitleKind::Work))
        },
        id3_import(frames, config, options).released_at == match (frames.date_released, frames.date_recorded) {
            (Some(ts), _) => Some(timestamp_date(ts)),
            (None, Some(ts)) => Some(timestamp_date(ts)),
            (None, None) => None,
        },
{
}

fn opt_as_str(s: &Option<String>) -> (r: Option<&str>)
    ensures
        opt_str_view(r) == opt_string_view(*s),
{
    match s {
        Some(s) => Some(s.as_str()),
        None => None,
    }
}

fn optional_name_list(name: Option<String>) -> (names: Vec<String>)
    ensures
        names.deep_view() == optional_names(opt_string_view(name)),
{
    let mut names: Vec<String> = Vec::new();
    if let Some(name) = name {
        names.push(name);
    }
    assert(names.deep_view() =~= optional_names(opt_string_view(name)));
    names
}

fn index_from(number: Option<u32>, total: Option<u32>) -> (index: Option<Index>)
    ensures
        index == numbered_index(number, total),
{
    if number.is_some() || total.is_some() {
        let number = match number {
            Some(n) => Some((n % 65536) as u16),
            None => None,
        };
        let total = match total {
            Some(n) => Some((n % 65536) as u16),
            None => None,
        };
        Some(Index { number, total })
    } else {
        None
    }
}

fn id3_titles(frames: &Id3Frames, itunes: bool) -> (titles: Vec<Title>)
    ensures
        titles_view(titles@) == optional_title(
            first_with_key(frames@.text_frames, "TIT2"@),
            TitleKind::Main,
        ) + optional_title(first_frame_value(frames@.text_frames, "TSST"@), TitleKind::Sub) + optional_title(
            first_frame_value(frames@.text_frames, "MVNM"@),
            TitleKind::Movement,
        ) + optional_title(
            if itunes {
                first_frame_value(frames@.text_frames, "TIT1"@)
            } else {
                first_with_key(frames@.extended_texts, "WORK"@)
            },
            TitleKind::Work,
        ),
{
    let mut titles: Vec<Title> = Vec::new();
    assert(titles_view(titles@) =~= Seq::empty());
    let main = frame_text(&frames.text_frames, "TIT2");
    push_optional_title(&mut titles, opt_as_str(&main), TitleKind::Main);
    let sub = first_text_frame(&frames.text_frames, "TSST");
    push_optional_title(&mut titles, opt_as_str(&sub), TitleKind::Sub);
    let movement = first_text_frame(&frames.text_frames, "MVNM");
    push_optional_title(&mut titles, opt_as_str(&movement), TitleKind::Movement);
    let work = if itunes {
        first_text_frame(&frames.text_frames, "TIT1")
    } else {
        first_described_text(&frames.extended_texts, "WORK")
    };
    push_optional_title(&mut titles, opt_as_str(&work), TitleKind::Work);
    titles
}

/// Imports the metadata of a track from the frames of its ID3v2 tag.
pub fn import_track(frames: &Id3Frames, config: &FacetedTagMappingConfig, options: ImportTrackOptions) -> (track: ImportedTrack)
    ensures
        track@ == id3_import(frames@, config@, options.spec_bits()),
        no_role_notes(track.actors@),
        no_role_notes(track.album_actors@),
{
    let itunes = options.contains(ImportTrackOptions::itunes_id3v2_grouping_movement_work());
    let tf = &frames.text_frames;
    let titles = id3_titles(frames, itunes);

    let mut actors: Vec<Actor> = Vec::new();
    assert(actors_view(actors@) =~= Seq::empty());
    push_actor_names(&mut actors, ActorRole::Artist, &optional_name_list(frame_text(tf, "TPE1")));
    push_actor_names(&mut actors, ActorRole::Composer, &text_frame_values(tf, "TCOM"));
    push_actor_names(&mut actors, ActorRole::Conductor, &text_frame_values(tf, "TPE3"));

    let mut album_titles: Vec<Title> = Vec::new();
    assert(titles_view(album_titles@) =~= Seq::empty());
    let album = frame_text(tf, "TALB");
    push_optional_title(&mut album_titles, opt_as_str(&album), TitleKind::Main);

    let mut album_actors: Vec<Actor> = Vec::new();
    assert(actors_view(album_actors@) =~= Seq::empty());
    push_actor_names(&mut album_actors, ActorRole::Artist, &optional_name_list(frame_text(tf, "TPE2")));

    let album_kind = match first_text_frame(tf, "TCMP") {
        Some(compilation) => {
            let chars = collect_chars(compilation.as_str());
            assert(chars@.subrange(0, chars.len() as int) =~= compilation@);
            match parse_u8_in(&chars, 0, chars.len()) {
                Some(1) => Some(AlbumKind::Compilation),
                _ => None,
            }
        },
        None => None,
    };

    let released_at = match frames.date_released {
        Some(ts) => Some(parse_timestamp(ts)),
        None => match frames.date_recorded {
            Some(ts) => Some(parse_timestamp(ts)),
            None => None,
        },
    };

    let key_signature = match first_text_frame(tf, "TKEY") {
        Some(key) => parse_key_signature(key.as_str()),
        None => None,
    };

    let movement_index = match first_text_frame(tf, "MVIN") {
        Some(mvin) => parse_index_numbers(mvin.as_str()),
        None => None,
    };

    let comments = match last_described_text(&frames.comments, "") {
        Some(text) => import_faceted_tags(text.as_str(), None),
        None => {
            let none: Vec<String> = Vec::new();
            assert(none.deep_view() =~= Seq::empty());
            none
        },
    };
    proof {
        reveal_strlit("");
    }
    assert(""@ =~= Seq::<char>::empty());

    let grouping_id = if itunes {
        "GRP1"
    } else {
        "TIT1"
    };
    let track = ImportedTrack {
        titles,
        actors,
        album_titles,
        album_actors,
        album_kind,
        released_at,
        released_by: first_text_frame(tf, "TPUB"),
        copyright: first_text_frame(tf, "TCOP"),
        key_signature,
        track_index: index_from(frames.track, frames.total_tracks),
        disc_index: index_from(frames.disc, frames.total_discs),
        movement_index,
        comments,
        genres: split_tag_labels(&text_frame_values(tf, "TCON"), separator_str(&config.genre_separator)),
        moods: split_tag_labels(&text_frame_values(tf, "TMOO"), separator_str(&config.mood_separator)),
        groupings: split_tag_labels(&text_frame_values(tf, grouping_id), separator_str(&config.grouping_separator)),
    };
    assert(track@.titles =~= id3_import(frames@, config@, options.spec_bits()).titles);
    track
}

} // verus!
