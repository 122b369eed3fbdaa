//! Interpretation of media metadata: actor lists, key signatures and
//! content types.

use vstd::prelude::*;

use crate::text::{collect_chars, decimal_value, parse_u8, parse_u8_in, str_eq, unsigned_digits};

verus! {

/// The role of an actor of a track or album.
#[derive(Debug, Clone, Copy, PartialEq, Eq, Structural)]
pub enum ActorRole {
    Artist,
    Composer,
    Conductor,
    Engineer,
    Lyricist,
    Mixer,
    Producer,
    Remixer,
}

/// Within the actors of one role, the single actor of that role is its
/// summary; as soon as there is more than one, all of them are primary.
#[derive(Debug, Clone, Copy, PartialEq, Eq, Structural)]
pub enum ActorKind {
    Summary,
    Primary,
}

#[derive(Debug, Clone, PartialEq, Eq)]
pub struct Actor {
    pub name: String,
    pub kind: ActorKind,
    pub role: ActorRole,
    pub role_notes: Option<String>,
}

/// The actors of each role stand together, in a single run.
pub open spec fn roles_in_runs(actors: Seq<Actor>) -> bool {
    forall|i: int, j: int, k: int|
        0 <= i < j < k < actors.len() && #[trigger] actors[i].role == #[trigger] actors[k].role ==> #[trigger] actors[j].role
            == actors[i].role
}

/// An actor has a neighbor of the same role.
pub open spec fn has_role_neighbor(actors: Seq<Actor>, i: int) -> bool {
    ||| (i > 0 && actors[i - 1].role == actors[i].role)
    ||| (i + 1 < actors.len() && actors[i + 1].role == actors[i].role)
}

/// An actor is a summary exactly when it is alone in its run of actors of
/// the same role.
pub open spec fn kinds_match_runs(actors: Seq<Actor>) -> bool {
    forall|i: int|
        0 <= i < actors.len() ==> (#[trigger] actors[i]).kind == (if has_role_neighbor(actors, i) {
            ActorKind::Primary
        } else {
            ActorKind::Summary
        })
}

/// The kind of the next actor of `role`: it continues the last run of
/// actors if that has the same role, and starts a new run otherwise.
pub open spec fn next_actor_kind(actors: Seq<Actor>, role: ActorRole) -> ActorKind {
    if actors.len() > 0 && actors.last().role == role {
        ActorKind::Primary
    } else {
        ActorKind::Summary
    }
}

/// The actors after appending an actor of `role` with `name`.
pub open spec fn pushed_actor(actors: Seq<Actor>, role: ActorRole, name: String) -> Seq<Actor> {
    let kind = next_actor_kind(actors, role);
    let adjusted = if kind == ActorKind::Primary {
        actors.update(actors.len() - 1, Actor { kind: ActorKind::Primary, ..actors.last() })
    } else {
        actors
    };
    adjusted.push(Actor { name, kind, role, role_notes: None })
}

fn adjust_last_actor_kind(actors: &mut Vec<Actor>, role: ActorRole) -> (kind: ActorKind)
    ensures
        kind == next_actor_kind(old(actors)@, role),
        final(actors)@ == (if kind == ActorKind::Primary {
            old(actors)@.update(
                old(actors)@.len() - 1,
                Actor { kind: ActorKind::Primary, ..old(actors)@.last() },
            )
        } else {
            old(actors)@
        }),
{
    let n = actors.len();
    if n > 0 && actors[n - 1].role == role {
        // A summary is only allowed once for each role.
        let mut last = actors.pop().unwrap();
        last.kind = ActorKind::Primary;
        actors.push(last);
        assert(actors@ =~= old(actors)@.update(
            n - 1,
            Actor { kind: ActorKind::Primary, ..old(actors)@.last() },
        ));
        return ActorKind::Primary;
    }
    ActorKind::Summary
}

/// Appends an actor of `role` with `name`: the first actor of a run is its
/// summary, and if the last actor has the same role, both become primary.
pub fn push_next_actor_role_name(actors: &mut Vec<Actor>, role: ActorRole, name: String)
    ensures
        final(actors)@ == pushed_actor(old(actors)@, role, name),
{
    let kind = adjust_last_actor_kind(actors, role);
    let actor = Actor { name, kind, role, role_notes: None };
    actors.push(actor);
}

proof fn lemma_pushed_roles(actors: Seq<Actor>, role: ActorRole, name: String)
    ensures
        pushed_actor(actors, role, name).len() == actors.len() + 1,
        pushed_actor(actors, role, name)[actors.len() as int].role == role,
        pushed_actor(actors, role, name)[actors.len() as int].kind == next_actor_kind(actors, role),
        forall|i: int| 0 <= i < actors.len() ==> (#[trigger] pushed_actor(actors, role, name)[i]).role == actors[i].role,
        forall|i: int| 0 <= i < actors.len() - 1 ==> #[trigger] pushed_actor(actors, role, name)[i] == actors[i],
        actors.len() > 0 ==> pushed_actor(actors, role, name)[actors.len() - 1].kind == (if next_actor_kind(actors, role)
            == ActorKind::Primary {
            ActorKind::Primary
        } else {
            actors.last().kind
        }),
{
}

proof fn lemma_push_keeps_runs(actors: Seq<Actor>, role: ActorRole, name: String)
    requires
        roles_in_runs(actors),
        (actors.len() > 0 && actors.last().role == role) || (forall|i: int| 0 <= i < actors.len() ==> #[trigger] actors[i].role != role),
    ensures
        roles_in_runs(pushed_actor(actors, role, name)),
{
    let pushed = pushed_actor(actors, role, name);
    let n = actors.len() as int;
    lemma_pushed_roles(actors, role, name);
    assert forall|i: int, j: int, k: int|
        0 <= i < j < k < pushed.len() && #[trigger] pushed[i].role == #[trigger] pushed[k].role implies #[trigger] pushed[j].role
            == pushed[i].role by {
        assert(pushed[i].role == actors[i].role);
        assert(pushed[j].role == actors[j].role);
        if k == n {
            if actors.len() > 0 && actors.last().role == role {
                if j < n - 1 {
                    assert(actors[i].role == actors[n - 1].role);
                }
            } else {
                assert(actors[i].role != role);
            }
        } else {
            assert(pushed[k].role == actors[k].role);
        }
    }
}

proof fn lemma_push_keeps_kinds(actors: Seq<Actor>, role: ActorRole, name: String)
    requires
        kinds_match_runs(actors),
    ensures
        kinds_match_runs(pushed_actor(actors, role, name)),
{
    let pushed = pushed_actor(actors, role, name);
    let n = actors.len() as int;
    lemma_pushed_roles(actors, role, name);
    assert forall|i: int| 0 <= i < pushed.len() implies (#[trigger] pushed[i]).kind == (if has_role_neighbor(pushed, i) {
        ActorKind::Primary
    } else {
        ActorKind::Summary
    }) by {
        if i < n - 1 {
            assert(pushed[i] == actors[i]);
            assert(pushed[i + 1].role == actors[i + 1].role);
            if i > 0 {
                assert(pushed[i - 1].role == actors[i - 1].role);
            }
            assert(has_role_neighbor(pushed, i) == has_role_neighbor(actors, i));
            assert(actors[i].kind == (if has_role_neighbor(actors, i) {
                ActorKind::Primary
            } else {
                ActorKind::Summary
            }));
        } else if i == n - 1 {
            assert(pushed[i].role == actors[i].role);
            if n > 1 {
                assert(pushed[i - 1].role == actors[i - 1].role);
            }
            assert(actors[i].kind == (if has_role_neighbor(actors, i) {
                ActorKind::Primary
            } else {
                ActorKind::Summary
            }));
        } else if n > 0 {
            assert(pushed[i - 1].role == actors[n - 1].role);
        }
    }
}

/// Appending actors role by role keeps the actors of each role in a single
/// run, summary when alone and primary otherwise, as long as the role of
/// the new actor continues the last run or has not occurred yet.
pub proof fn law_push_keeps_actor_runs(actors: Seq<Actor>, role: ActorRole, name: String)
    requires
        roles_in_runs(actors),
        kinds_match_runs(actors),
        (actors.len() > 0 && actors.last().role == role) || (forall|i: int| 0 <= i < actors.len() ==> #[trigger] actors[i].role != role),
    ensures
        roles_in_runs(pushed_actor(actors, role, name)),
        kinds_match_runs(pushed_actor(actors, role, name)),
{
    lemma_push_keeps_runs(actors, role, name);
    lemma_push_keeps_kinds(actors, role, name);
}

/// The mode of a musical key.
#[derive(Debug, Clone, Copy, PartialEq, Eq, Structural)]
pub enum KeyMode {
    Major,
    Minor,
}

/// A key signature in the notation in which it was found.
#[derive(Debug, Clone, Copy, PartialEq, Eq, Structural)]
pub enum KeySignature {
    /// Open Key notation: `1d` to `12d` (major), `1m` to `12m` (minor).
    OpenKey { code: u8, mode: KeyMode },
    /// Lancelot notation: `1A` to `12A` (minor), `1B` to `12B` (major).
    Lancelot { code: u8, mode: KeyMode },
    /// A raw key code.
    KeyCode(u8),
}

pub open spec fn is_space(c: char) -> bool {
    c == ' ' || c == '\t'
}

/// The number of leading spaces and tabs.
pub open spec fn spaces_len(s: Seq<char>) -> nat
    decreases s.len(),
{
    if s.len() > 0 && is_space(s[0]) {
        1 + spaces_len(s.drop_first())
    } else {
        0
    }
}

/// The number of leading ASCII digits.
pub open spec fn digits_len(s: Seq<char>) -> nat
    decreases s.len(),
{
    if s.len() > 0 && '0' <= s[0] <= '9' {
        1 + digits_len(s.drop_first())
    } else {
        0
    }
}

pub open spec fn is_key_mode_char(c: char) -> bool {
    c == 'd' || c == 'm' || c == 'A' || c == 'B'
}

/// The code digits and mode character of a key signature in the form
/// `<spaces><digits><spaces><d|m|A|B>`, followed by anything.
pub open spec fn key_code_and_mode(s: Seq<char>) -> Option<(Seq<char>, char)> {
    let after_spaces = s.skip(spaces_len(s) as int);
    let digits = after_spaces.take(digits_len(after_spaces) as int);
    let after_digits = after_spaces.skip(digits_len(after_spaces) as int);
    let mode_and_rest = after_digits.skip(spaces_len(after_digits) as int);
    if digits.len() > 0 && mode_and_rest.len() > 0 && is_key_mode_char(mode_and_rest[0]) {
        Some((digits, mode_and_rest[0]))
    } else {
        None
    }
}

/// The key signature that an input denotes: Open Key or Lancelot notation
/// with a code from 1 to 12, or otherwise a raw key code.
pub open spec fn key_signature_of(s: Seq<char>) -> Option<KeySignature> {
    let notation = match key_code_and_mode(s) {
        Some((digits, mode)) => match parse_u8(digits) {
            Some(code) => if 1 <= code <= 12 {
                if mode == 'd' || mode == 'm' {
                    Some(
                        KeySignature::OpenKey {
                            code,
                            mode: if mode == 'd' {
                                KeyMode::Major
                            } else {
                                KeyMode::Minor
                            },
                        },
                    )
                } else {
                    Some(
                        KeySignature::Lancelot {
                            code,
                            mode: if mode == 'A' {
                                KeyMode::Minor
                            } else {
                                KeyMode::Major
                            },
                        },
                    )
                }
            } else {
                None
            },
            None => None,
        },
        None => None,
    };
    match notation {
        Some(key) => Some(key),
        None => match parse_u8(s) {
            Some(code) => Some(KeySignature::KeyCode(code)),
            None => None,
        },
    }
}

pub(crate) proof fn lemma_spaces_len(s: Seq<char>, k: int)
    requires
        0 <= k <= s.len(),
        forall|m: int| 0 <= m < k ==> is_space(#[trigger] s[m]),
        k == s.len() || !is_space(s[k]),
    ensures
        spaces_len(s) == k,
    decreases k,
{
    if k > 0 {
        let t = s.drop_first();
        assert forall|m: int| 0 <= m < k - 1 implies is_space(#[trigger] t[m]) by {
            assert(t[m] == s[m + 1]);
        }
        if k < s.len() {
            assert(t[k - 1] == s[k]);
        }
        assert(is_space(s[0]));
        lemma_spaces_len(t, k - 1);
    }
}

pub(crate) proof fn lemma_digits_len(s: Seq<char>, k: int)
    requires
        0 <= k <= s.len(),
        forall|m: int| 0 <= m < k ==> '0' <= #[trigger] s[m] <= '9',
        k == s.len() || !('0' <= s[k] <= '9'),
    ensures
        digits_len(s) == k,
    decreases k,
{
    if k > 0 {
        let t = s.drop_first();
        assert forall|m: int| 0 <= m < k - 1 implies '0' <= #[trigger] t[m] <= '9' by {
            assert(t[m] == s[m + 1]);
        }
        if k < s.len() {
            assert(t[k - 1] == s[k]);
        }
        assert('0' <= s[0] <= '9');
        lemma_digits_len(t, k - 1);
    }
}

/// The decimal digit `d`, for `d` from 0 to 9.
pub open spec fn digit_char_of(d: int) -> char {
    (48 + d) as char
}

/// A key code from 1 to 12 written in decimal.
pub open spec fn key_code_text(code: u8) -> Seq<char> {
    if code < 10 {
        seq![digit_char_of(code as int)]
    } else {
        seq!['1', digit_char_of(code - 10)]
    }
}

proof fn lemma_key_code_text(code: u8)
    requires
        1 <= code <= 12,
    ensures
        key_code_text(code).len() > 0,
        forall|m: int| 0 <= m < key_code_text(code).len() ==> '0' <= #[trigger] key_code_text(code)[m] <= '9',
        parse_u8(key_code_text(code)) == Some(code),
{
    let t = key_code_text(code);
    assert('0' as nat == 48 && '1' as nat == 49 && '9' as nat == 57);
    if code < 10 {
        assert(digit_char_of(code as int) as nat == 48 + code);
        assert(t.drop_last() =~= Seq::<char>::empty());
        assert(decimal_value(Seq::<char>::empty()) == 0);
        assert(decimal_value(t) == code);
    } else {
        assert(digit_char_of(code - 10) as nat == 38 + code);
        let one = t.drop_last();
        assert(one =~= seq!['1']);
        assert(one.drop_last() =~= Seq::<char>::empty());
        assert(decimal_value(Seq::<char>::empty()) == 0);
        assert(decimal_value(one) == decimal_value(one.drop_last()) * 10 + (one.last() as nat - '0' as nat) as nat);
        assert(decimal_value(one) == 1);
        assert(decimal_value(t) == code);
    }
    assert(unsigned_digits(t) == t);
}

/// Every Open Key (`1d` to `12d` major, `1m` to `12m` minor) and every
/// Lancelot key (`1A` to `12A` minor, `1B` to `12B` major) denotes that key.
pub proof fn law_key_notations(code: u8, mode: char)
    requires
        1 <= code <= 12,
        mode == 'd' || mode == 'm' || mode == 'A' || mode == 'B',
    ensures
        key_signature_of(key_code_text(code) + seq![mode]) == Some(
            if mode == 'A' {
                KeySignature::Lancelot { code, mode: KeyMode::Minor }
            } else if mode == 'B' {
                KeySignature::Lancelot { code, mode: KeyMode::Major }
            } else if mode == 'd' {
                KeySignature::OpenKey { code, mode: KeyMode::Major }
            } else {
                KeySignature::OpenKey { code, mode: KeyMode::Minor }
            },
        ),
{
    let digits = key_code_text(code);
    let s = digits + seq![mode];
    let n = digits.len() as int;
    lemma_key_code_text(code);
    assert(!is_space(s[0]));
    lemma_spaces_len(s, 0);
    assert(s.skip(0) =~= s);
    assert forall|m: int| 0 <= m < n implies '0' <= #[trigger] s[m] <= '9' by {
        assert(s[m] == digits[m]);
    }
    assert(s[n] == mode);
    lemma_digits_len(s, n);
    assert(s.take(n) =~= digits);
    let rest = s.skip(n);
    assert(rest =~= seq![mode]);
    assert(!is_space(rest[0]));
    lemma_spaces_len(rest, 0);
    assert(rest.skip(0) =~= rest);
    assert(key_code_and_mode(s) == Some((digits, mode)));
}

pub(crate) fn skip_spaces(chars: &Vec<char>, start: usize) -> (end: usize)
    requires
        start <= chars.len(),
    ensures
        start <= end <= chars.len(),
        end - start == spaces_len(chars@.skip(start as int)),
{
    let mut end = start;
    while end < chars.len() && (chars[end] == ' ' || chars[end] == '\t')
        invariant
            start <= end <= chars.len(),
            forall|m: int| start <= m < end ==> is_space(#[trigger] chars@[m]),
        decreases chars.len() - end,
    {
        end = end + 1;
    }
    proof {
        let t = chars@.skip(start as int);
        assert forall|m: int| 0 <= m < end - start implies is_space(#[trigger] t[m]) by {
            assert(t[m] == chars@[start + m]);
        }
        lemma_spaces_len(t, end - start);
    }
    end
}

pub(crate) fn skip_digits(chars: &Vec<char>, start: usize) -> (end: usize)
    requires
        start <= chars.len(),
    ensures
        start <= end <= chars.len(),
        end - start == digits_len(chars@.skip(start as int)),
        forall|m: int| start <= m < end ==> '0' <= #[trigger] chars@[m] <= '9',
{
    let mut end = start;
    while end < chars.len() && ('0' <= chars[end] && chars[end] <= '9')
        invariant
            start <= end <= chars.len(),
            forall|m: int| start <= m < end ==> '0' <= #[trigger] chars@[m] <= '9',
        decreases chars.len() - end,
    {
        end = end + 1;
    }
    proof {
        let t = chars@.skip(start as int);
        assert forall|m: int| 0 <= m < end - start implies '0' <= #[trigger] t[m] <= '9' by {
            assert(t[m] == chars@[start + m]);
        }
        lemma_digits_len(t, end - start);
    }
    end
}

/// Parses a key signature in Open Key notation (`1d`..`12m`) or Lancelot
/// notation (`1A`..`12B`), optionally surrounded by spaces, or else a raw
/// key code.
pub fn parse_key_signature(input: &str) -> (key_signature: Option<KeySignature>)
    ensures
        key_signature == key_signature_of(input@),
{
    let chars = collect_chars(input);
    let ghost s = input@;
    let digits_start = skip_spaces(&chars, 0);
    let digits_end = skip_digits(&chars, digits_start);
    let mode_pos = skip_spaces(&chars, digits_end);
    proof {
        let after_spaces = s.skip(spaces_len(s) as int);
        assert(s.skip(0) =~= s);
        assert(after_spaces =~= chars@.skip(digits_start as int));
        let after_digits = after_spaces.skip(digits_len(after_spaces) as int);
        assert(after_digits =~= chars@.skip(digits_end as int));
        assert(after_spaces.take(digits_len(after_spaces) as int) =~= chars@.subrange(
            digits_start as int,
            digits_end as int,
        ));
        assert(after_digits.skip(spaces_len(after_digits) as int) =~= chars@.skip(mode_pos as int));
    }
    if digits_end > digits_start && mode_pos < chars.len() {
        let mode = chars[mode_pos];
        if mode == 'd' || mode == 'm' || mode == 'A' || mode == 'B' {
            if let Some(code) = parse_u8_in(&chars, digits_start, digits_end) {
                if 1 <= code && code <= 12 {
                    if mode == 'd' || mode == 'm' {
                        // Open Key
                        let mode = if mode == 'd' {
                            KeyMode::Major
                        } else {
                            KeyMode::Minor
                        };
                        return Some(KeySignature::OpenKey { code, mode });
                    } else {
                        // Lancelot
                        let mode = if mode == 'A' {
                            KeyMode::Minor
                        } else {
                            KeyMode::Major
                        };
                        return Some(KeySignature::Lancelot { code, mode });
                    }
                }
            }
        }
    }
    // Fallback: a raw key code
    assert(chars@.subrange(0, chars.len() as int) =~= s);
    match parse_u8_in(&chars, 0, chars.len()) {
        Some(code) => Some(KeySignature::KeyCode(code)),
        None => None,
    }
}

#[verifier::external_type_specification]
#[verifier::external_body]
pub struct ExUrl(url::Url);

/// The path component of a URL.
pub uninterp spec fn url_path(url: url::Url) -> Seq<char>;

/// The media types that `mime_guess` associates with the file extension of
/// a path, most common first; none for an unknown or missing extension.
pub uninterp spec fn guessed_media_types(path: Seq<char>) -> Seq<Seq<char>>;

/// `Url::path`.
#[verifier::external_body]
fn url_path_of(url: &url::Url) -> (path: &str)
    ensures
        path@ == url_path(*url),
{
    url.path()
}

/// `mime_guess::from_path`, as the raw media type strings of the guess.
#[verifier::external_body]
fn guess_media_types(path: &str) -> (types: Vec<String>)
    ensures
        types.deep_view() == guessed_media_types(path@),
{
    mime_guess::from_path(path).iter_raw().map(|media_type| media_type.to_owned()).collect()
}

#[derive(Debug, Clone, Copy, PartialEq, Eq, Structural)]
pub enum Error {
    /// No audio content type is known for the file.
    UnknownContentType,
}

/// A media type of the top-level type `audio`.
pub open spec fn is_audio_type(media_type: Seq<char>) -> bool {
    &&& media_type.len() >= 6
    &&& media_type.take(6) == seq!['a', 'u', 'd', 'i', 'o', '/']
}

/// The first audio type among the media types, if any.
pub open spec fn first_audio_type(types: Seq<Seq<char>>) -> Option<Seq<char>>
    decreases types.len(),
{
    if types.len() == 0 {
        None
    } else if is_audio_type(types[0]) {
        Some(types[0])
    } else {
        first_audio_type(types.drop_first())
    }
}

fn is_audio_media_type(media_type: &str) -> (audio: bool)
    ensures
        audio == is_audio_type(media_type@),
{
    let chars = collect_chars(media_type);
    if chars.len() < 6 {
        return false;
    }
    let audio = chars[0] == 'a' && chars[1] == 'u' && chars[2] == 'd' && chars[3] == 'i' && chars[4] == 'o'
        && chars[5] == '/';
    if audio {
        assert(media_type@.take(6) =~= seq!['a', 'u', 'd', 'i', 'o', '/']);
    } else {
        assert(!(media_type@.take(6) =~= seq!['a', 'u', 'd', 'i', 'o', '/']) ==> media_type@.take(6) != seq![
            'a',
            'u',
            'd',
            'i',
            'o',
            '/',
        ]);
        assert(media_type@.take(6)[0] == chars[0]);
    }
    audio
}

/// The first audio type among the guessed media types of a path.
pub fn guess_mime_from_path(path: &str) -> (mime: Result<String, Error>)
    ensures
        match first_audio_type(guessed_media_types(path@)) {
            Some(media_type) => mime matches Ok(m) && m@ == media_type,
            None => mime == Err::<String, Error>(Error::UnknownContentType),
        },
{
    let types = guess_media_types(path);
    let ghost all = types.deep_view();
    let mut i: usize = 0;
    assert(all.skip(0) =~= all);
    while i < types.len()
        invariant
            i <= types.len(),
            all == types.deep_view(),
            all == guessed_media_types(path@),
            first_audio_type(all) == first_audio_type(all.skip(i as int)),
        decreases types.len() - i,
    {
        assert(all.skip(i as int)[0] == all[i as int]);
        assert(all[i as int] == types@[i as int]@);
        if is_audio_media_type(types[i].as_str()) {
            let media_type = types[i].clone();
            assert(media_type@ == all[i as int]);
            assert(first_audio_type(all.skip(i as int)) == Some(all[i as int]));
            return Ok(media_type);
        }
        assert(all.skip(i as int).drop_first() =~= all.skip(i + 1));
        i += 1;
    }
    Err(Error::UnknownContentType)
}

/// The first audio type among the media types that the extension of the
/// URL's path suggests.
pub fn guess_mime_from_url(url: &url::Url) -> (mime: Result<String, Error>)
    ensures
        match first_audio_type(guessed_media_types(url_path(*url))) {
            Some(media_type) => mime matches Ok(m) && m@ == media_type,
            None => mime == Err::<String, Error>(Error::UnknownContentType),
        },
{
    guess_mime_from_path(url_path_of(url))
}

#[verifier::external_type_specification]
#[verifier::external_body]
pub struct ExPathBuf(std::path::PathBuf);

/// The scheme of a URL, such as `file` or `https`.
pub uninterp spec fn url_scheme(url: url::Url) -> Seq<char>;

/// `Url::scheme`.
#[verifier::external_body]
fn url_scheme_of(url: &url::Url) -> (scheme: &str)
    ensures
        scheme@ == url_scheme(*url),
{
    url.scheme()
}

/// `Url::to_file_path`: the local file path that a URL names. What it
/// accepts depends on the platform (a host name is only accepted on
/// Windows), so nothing is stated of the result.
#[verifier::external_body]
fn url_to_file_path(url: &url::Url) -> Option<std::path::PathBuf> {
    url.to_file_path().ok()
}

/// Why a URL cannot be opened as a local file.
#[derive(Debug, Clone, Copy, PartialEq, Eq, Structural)]
pub enum OpenUrlError {
    /// Only `file` URLs name local files.
    UnsupportedScheme,
    /// The URL names no local, absolute file path.
    InvalidFileUrl,
}

/// The path of the local file that a `file` URL names, for reading it.
pub fn local_file_path(url: &url::Url) -> (path: Result<std::path::PathBuf, OpenUrlError>)
    ensures
        path == Err::<std::path::PathBuf, OpenUrlError>(OpenUrlError::UnsupportedScheme) <==> url_scheme(*url)
            != "file"@,
        path is Err ==> path == Err::<std::path::PathBuf, OpenUrlError>(OpenUrlError::UnsupportedScheme) || path
            == Err::<std::path::PathBuf, OpenUrlError>(OpenUrlError::InvalidFileUrl),
{
    if !str_eq(url_scheme_of(url), "file") {
        return Err(OpenUrlError::UnsupportedScheme);
    }
    match url_to_file_path(url) {
        Some(path) => Ok(path),
        None => Err(OpenUrlError::InvalidFileUrl),
    }
}

} // verus!
