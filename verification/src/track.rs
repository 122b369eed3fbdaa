//! Track data as it is stored and listed: the scope of titles and actors,
//! the year range of a track and the labels of its faceted tags.

use vstd::prelude::*;

use crate::text::str_eq;

verus! {

/// Whether titles and actors belong to the track or to its album.
#[derive(Debug, Clone, Copy, PartialEq, Eq, Structural)]
pub enum Scope {
    Track,
    Album,
}

pub open spec fn scope_code(scope: Scope) -> i16 {
    match scope {
        Scope::Track => 0,
        Scope::Album => 1,
    }
}

impl Scope {
    /// The number that stands for the scope in the database.
    pub fn to_i16(self) -> (code: i16)
        ensures
            code == scope_code(self),
    {
        match self {
            Scope::Track => 0,
            Scope::Album => 1,
        }
    }

    pub fn from_i16(code: i16) -> (scope: Option<Scope>)
        ensures
            scope matches Some(s) ==> scope_code(s) == code,
            scope is None <==> code != 0 && code != 1,
    {
        if code == 0 {
            Some(Scope::Track)
        } else if code == 1 {
            Some(Scope::Album)
        } else {
            None
        }
    }
}

/// Every scope can be read back from its number.
pub proof fn law_scope_code_round_trip(scope: Scope)
    ensures
        scope_code(scope) == 0 || scope_code(scope) == 1,
        scope_code(scope) == 0 ==> scope == Scope::Track,
        scope_code(scope) == 1 ==> scope == Scope::Album,
{
}

/// The range of years in which a track was recorded and released.
#[derive(Debug, Clone, Copy, PartialEq, Eq, Structural)]
pub struct TrackYear {
    pub min: i16,
    pub max: i16,
}

/// A range widened to include a year.
pub open spec fn widened(range: Option<TrackYear>, year: i16) -> TrackYear {
    match range {
        Some(r) => TrackYear {
            min: if r.min < year { r.min } else { year },
            max: if r.max > year { r.max } else { year },
        },
        None => TrackYear { min: year, max: year },
    }
}

/// The smallest and the largest of the years that are present.
pub open spec fn year_range(years: Seq<Option<i16>>) -> Option<TrackYear>
    decreases years.len(),
{
    if years.len() == 0 {
        None
    } else {
        let rest = year_range(years.drop_last());
        match years.last() {
            Some(y) => Some(widened(rest, y)),
            None => rest,
        }
    }
}

/// The years of the recording, the release and the original release of a
/// track, as far as they are known, as a range.
pub fn track_year(recorded: Option<i16>, released: Option<i16>, released_orig: Option<i16>) -> (year: Option<TrackYear>)
    ensures
        year == year_range(seq![recorded, released, released_orig]),
{
    let years = [recorded, released, released_orig];
    let mut year: Option<TrackYear> = None;
    let mut i: usize = 0;
    while i < 3
        invariant
            i <= 3,
            years@ == seq![recorded, released, released_orig],
            year == year_range(years@.take(i as int)),
        decreases 3 - i,
    {
        assert(years@.take(i + 1).drop_last() =~= years@.take(i as int));
        if let Some(y) = years[i] {
            year = match year {
                Some(range) => Some(
                    TrackYear {
                        min: if range.min < y { range.min } else { y },
                        max: if range.max > y { range.max } else { y },
                    },
                ),
                None => Some(TrackYear { min: y, max: y }),
            };
        }
        i += 1;
    }
    assert(years@.take(3) =~= years@);
    year
}

/// The range spans all given years.
pub proof fn law_year_range_bounds(years: Seq<Option<i16>>)
    ensures
        year_range(years) is None <==> (forall|i: int| 0 <= i < years.len() ==> #[trigger] years[i] is None),
        year_range(years) matches Some(r) ==> r.min <= r.max,
        year_range(years) matches Some(r) ==> forall|i: int|
            0 <= i < years.len() && #[trigger] years[i] is Some ==> r.min <= years[i]->0 <= r.max,
    decreases years.len(),
{
    if years.len() > 0 {
        let init = years.drop_last();
        law_year_range_bounds(init);
        assert forall|i: int| 0 <= i < init.len() implies #[trigger] init[i] == years[i] by {}
        if year_range(years) is None {
            assert forall|i: int| 0 <= i < years.len() implies #[trigger] years[i] is None by {
                if i < init.len() {
                    assert(init[i] == years[i]);
                }
            }
        }
        if let Some(r) = year_range(years) {
            assert forall|i: int| 0 <= i < years.len() && #[trigger] years[i] is Some implies r.min <= years[i]->0 <= r.max by {
                if i < init.len() {
                    assert(init[i] == years[i]);
                    assert(year_range(init) is Some);
                }
            }
        }
    }
}

/// The tag labels of one facet of a track.
#[derive(Debug, Clone, PartialEq, Eq)]
pub struct FacetedTagLabels {
    pub facet_id: String,
    /// The labels of the tags of this facet; tags without a label are
    /// `None`.
    pub labels: Vec<Option<String>>,
}

/// The labels present in a list of tags, in order.
pub open spec fn present_labels(labels: Seq<Option<String>>) -> Seq<Seq<char>>
    decreases labels.len(),
{
    if labels.len() == 0 {
        Seq::empty()
    } else {
        present_labels(labels.drop_last()) + match labels.last() {
            Some(label) => seq![label@],
            None => Seq::empty(),
        }
    }
}

/// The labels of all tags of the facet `facet_id`, in order.
pub open spec fn facet_labels(facets: Seq<FacetedTagLabels>, facet_id: Seq<char>) -> Seq<Seq<char>>
    decreases facets.len(),
{
    if facets.len() == 0 {
        Seq::empty()
    } else {
        facet_labels(facets.drop_last(), facet_id) + if facets.last().facet_id@ == facet_id {
            present_labels(facets.last().labels@)
        } else {
            Seq::empty()
        }
    }
}

/// The labels joined by the separator.
pub open spec fn joined(labels: Seq<Seq<char>>, separator: Seq<char>) -> Seq<char>
    decreases labels.len(),
{
    if labels.len() == 0 {
        Seq::empty()
    } else if labels.len() == 1 {
        labels[0]
    } else {
        joined(labels.drop_last(), separator) + separator + labels.last()
    }
}

/// The labels of all tags of a facet, in order.
pub fn filter_faceted_track_tag_labels(facets: &Vec<FacetedTagLabels>, facet_id: &str) -> (labels: Vec<String>)
    ensures
        labels.deep_view() == facet_labels(facets@, facet_id@),
{
    let mut labels: Vec<String> = Vec::new();
    let mut i: usize = 0;
    while i < facets.len()
        invariant
            i <= facets.len(),
            labels.deep_view() == facet_labels(facets@.take(i as int), facet_id@),
        decreases facets.len() - i,
    {
        assert(facets@.take(i + 1).drop_last() =~= facets@.take(i as int));
        let facet = &facets[i];
        if str_eq(facet.facet_id.as_str(), facet_id) {
            let ghost before = labels.deep_view();
            let mut j: usize = 0;
            while j < facet.labels.len()
                invariant
                    j <= facet.labels.len(),
                    labels.deep_view() == before + present_labels(facet.labels@.take(j as int)),
                decreases facet.labels.len() - j,
            {
                assert(facet.labels@.take(j + 1).drop_last() =~= facet.labels@.take(j as int));
                let ghost prev = labels.deep_view();
                if let Some(label) = &facet.labels[j] {
                    labels.push(label.clone());
                    assert(labels.deep_view() =~= prev.push(label@));
                    assert(before + present_labels(facet.labels@.take(j + 1)) =~= prev + seq![label@]);
                } else {
                    assert(present_labels(facet.labels@.take(j + 1)) =~= present_labels(facet.labels@.take(j as int)));
                }
                j += 1;
            }
            assert(facet.labels@.take(j as int) =~= facet.labels@);
        } else {
            assert(facet_labels(facets@.take(i + 1), facet_id@) =~= facet_labels(facets@.take(i as int), facet_id@));
        }
        i += 1;
    }
    assert(facets@.take(i as int) =~= facets@);
    labels
}

/// The labels of all tags of a facet joined by `separator`, or `None` if
/// there is no label at all.
pub fn concat_faceted_track_tag_labels(facets: &Vec<FacetedTagLabels>, facet_id: &str, separator: &str) -> (concat: Option<String>)
    ensures
        concat is None <==> facet_labels(facets@, facet_id@).len() == 0,
        concat matches Some(s) ==> s@ == joined(facet_labels(facets@, facet_id@), separator@),
{
    let labels = filter_faceted_track_tag_labels(facets, facet_id);
    if labels.len() == 0 {
        return None;
    }
    let ghost all = labels.deep_view();
    let mut concat = labels[0].clone();
    let mut i: usize = 1;
    assert(all.take(1).drop_last() =~= Seq::<Seq<char>>::empty());
    while i < labels.len()
        invariant
            1 <= i <= labels.len(),
            all == labels.deep_view(),
            concat@ == joined(all.take(i as int), separator@),
        decreases labels.len() - i,
    {
        assert(all.take(i + 1).drop_last() =~= all.take(i as int));
        concat.append(separator);
        concat.append(labels[i].as_str());
        i += 1;
    }
    assert(all.take(i as int) =~= all);
    Some(concat)
}

/// The character of a decimal digit.
pub open spec fn digit_char(d: nat) -> char {
    ('0' as nat + d) as char
}

/// The decimal representation of a number, without leading zeros.
pub open spec fn decimal(n: nat) -> Seq<char>
    decreases n,
{
    if n < 10 {
        seq![digit_char(n)]
    } else {
        decimal(n / 10) + seq![digit_char(n % 10)]
    }
}

fn digit_str(d: u16) -> (s: &'static str)
    requires
        d < 10,
    ensures
        s@ == seq![digit_char(d as nat)],
{
    proof {
        reveal_strlit("0");
        reveal_strlit("1");
        reveal_strlit("2");
        reveal_strlit("3");
        reveal_strlit("4");
        reveal_strlit("5");
        reveal_strlit("6");
        reveal_strlit("7");
        reveal_strlit("8");
        reveal_strlit("9");
    }
    match d {
        0 => "0",
        1 => "1",
        2 => "2",
        3 => "3",
        4 => "4",
        5 => "5",
        6 => "6",
        7 => "7",
        8 => "8",
        _ => "9",
    }
}

/// Appends the decimal representation of `n`.
fn append_decimal(s: &mut String, n: u16)
    ensures
        final(s)@ == old(s)@ + decimal(n as nat),
    decreases n,
{
    if n >= 10 {
        append_decimal(s, n / 10);
    }
    s.append(digit_str(n % 10));
}

/// The label of a track: artist, title and album, as far as they are known.
/// The album artist is only named when it differs from the track artist.
pub open spec fn track_label(
    title: Option<Seq<char>>,
    artist: Option<Seq<char>>,
    album_title: Option<Seq<char>>,
    album_artist: Option<Seq<char>>,
) -> Seq<char> {
    let title = match title {
        Some(t) => t,
        None => "Untitled"@,
    };
    match (artist, album_title, album_artist) {
        (Some(artist), Some(album_title), Some(album_artist)) => if artist == album_artist {
            artist + " - "@ + title + " ["@ + album_title + "]"@
        } else {
            artist + " - "@ + title + " ["@ + album_title + " by "@ + album_artist + "]"@
        },
        (None, Some(album_title), Some(album_artist)) => title + " ["@ + album_title + " by "@ + album_artist + "]"@,
        (Some(artist), Some(album_title), None) => artist + " - "@ + title + " ["@ + album_title + "]"@,
        (Some(artist), None, _) => artist + " - "@ + title,
        (None, Some(album_title), None) => title + " ["@ + album_title + "]"@,
        (None, None, _) => title,
    }
}

/// The label of a track with its tempo in BPM and its key, in braces.
pub open spec fn track_list_label(label: Seq<char>, bpm: Option<u16>, key: Seq<char>) -> Seq<char> {
    match bpm {
        Some(bpm) => if key.len() == 0 {
            label + " {"@ + decimal(bpm as nat) + "}"@
        } else {
            label + " {"@ + decimal(bpm as nat) + " "@ + key + "}"@
        },
        None => if key.len() == 0 {
            label
        } else {
            label + " {"@ + key + "}"@
        },
    }
}

pub open spec fn opt_view(s: Option<&str>) -> Option<Seq<char>> {
    match s {
        Some(s) => Some(s@),
        None => None,
    }
}

/// The label of an entry of the track list. `bpm` is the tempo rounded to
/// a whole number, and `key` the key in Lancelot notation, empty when it is
/// not known.
pub fn track_list_item_label(
    title: Option<&str>,
    artist: Option<&str>,
    album_title: Option<&str>,
    album_artist: Option<&str>,
    bpm: Option<u16>,
    key: &str,
) -> (label: String)
    ensures
        label@ == track_list_label(
            track_label(opt_view(title), opt_view(artist), opt_view(album_title), opt_view(album_artist)),
            bpm,
            key@,
        ),
{
    let track_title = match title {
        Some(t) => t,
        None => "Untitled",
    };
    let mut label: String = match (artist, album_title, album_artist) {
        (Some(artist), Some(album_title), Some(album_artist)) => {
            let mut label = artist.to_owned();
            label.append(" - ");
            label.append(track_title);
            label.append(" [");
            label.append(album_title);
            if !str_eq(artist, album_artist) {
                label.append(" by ");
                label.append(album_artist);
            }
            label.append("]");
            label
        },
        (None, Some(album_title), Some(album_artist)) => {
            let mut label = track_title.to_owned();
            label.append(" [");
            label.append(album_title);
            label.append(" by ");
            label.append(album_artist);
            label.append("]");
            label
        },
        (Some(artist), Some(album_title), None) => {
            let mut label = artist.to_owned();
            label.append(" - ");
            label.append(track_title);
            label.append(" [");
            label.append(album_title);
            label.append("]");
            label
        },
        (Some(artist), None, _) => {
            let mut label = artist.to_owned();
            label.append(" - ");
            label.append(track_title);
            label
        },
        (None, Some(album_title), None) => {
            let mut label = track_title.to_owned();
            label.append(" [");
            label.append(album_title);
            label.append("]");
            label
        },
        (None, None, _) => track_title.to_owned(),
    };
    let key_is_empty = key.unicode_len() == 0;
    match bpm {
        Some(bpm) => {
            label.append(" {");
            append_decimal(&mut label, bpm);
            if !key_is_empty {
                label.append(" ");
                label.append(key);
            }
            label.append("}");
        },
        None => {
            if !key_is_empty {
                label.append(" {");
                label.append(key);
                label.append("}");
            }
        },
    }
    label
}

} // verus!
