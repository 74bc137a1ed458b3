//! The tag keys that templates can name: each key of the `lofty` crate
//! that a template may use, under its name in every case style that
//! `convert_case` writes (`albumArtist`, `album_artist`, `ALBUM-ARTIST`,
//! ...), and a few shorter aliases.

use crate::error::{TFMTError, TFMTErrorView};
use crate::context::TagKind;
use crate::text::{chars_eq, chars_of};
use convert_case::{Case, Casing};
use vstd::prelude::*;

verus! {

/// The case styles in which key names are accepted.
#[derive(Debug, Clone, Copy, PartialEq, Eq, Structural)]
pub enum CaseStyle {
    Camel,
    Cobol,
    Flat,
    Kebab,
    Pascal,
    UpperSnake,
    Snake,
    Train,
    UpperFlat,
}

/// The case styles, in the order in which names are entered.
pub open spec fn case_styles() -> Seq<CaseStyle> {
    seq![
        CaseStyle::Camel,
        CaseStyle::Cobol,
        CaseStyle::Flat,
        CaseStyle::Kebab,
        CaseStyle::Pascal,
        CaseStyle::UpperSnake,
        CaseStyle::Snake,
        CaseStyle::Train,
        CaseStyle::UpperFlat,
    ]
}

fn case_style_at(i: usize) -> (r: CaseStyle)
    requires
        i < 9,
    ensures
        r == case_styles()[i as int],
{
    if i == 0 {
        CaseStyle::Camel
    } else if i == 1 {
        CaseStyle::Cobol
    } else if i == 2 {
        CaseStyle::Flat
    } else if i == 3 {
        CaseStyle::Kebab
    } else if i == 4 {
        CaseStyle::Pascal
    } else if i == 5 {
        CaseStyle::UpperSnake
    } else if i == 6 {
        CaseStyle::Snake
    } else if i == 7 {
        CaseStyle::Train
    } else {
        CaseStyle::UpperFlat
    }
}

/// Name for what `convert_case` makes of the PascalCase name `pascal` when
/// it is read as PascalCase and written in `style`.
pub uninterp spec fn converted_case(pascal: Seq<char>, style: CaseStyle) -> Seq<char>;

/// `convert_case`'s `from_case(Case::Pascal).to_case(..)`.
#[verifier::external_body]
fn convert_pascal(pascal: &str, style: CaseStyle) -> (r: String)
    ensures
        r@ == converted_case(pascal@, style),
{
    let case = match style {
        CaseStyle::Camel => Case::Camel,
        CaseStyle::Cobol => Case::Cobol,
        CaseStyle::Flat => Case::Flat,
        CaseStyle::Kebab => Case::Kebab,
        CaseStyle::Pascal => Case::Pascal,
        CaseStyle::UpperSnake => Case::UpperSnake,
        CaseStyle::Snake => Case::Snake,
        CaseStyle::Train => Case::Train,
        CaseStyle::UpperFlat => Case::UpperFlat,
    };
    pascal.from_case(Case::Pascal).to_case(case)
}

/// The names of the keys, as `lofty` names its `ItemKey` variants, in
/// the order in which they are entered: titles, original names, sort
/// orders, people, counts, dates, identifiers, MusicBrainz identifiers,
/// flags, encoding, gains, links, style, podcast and other fields.
#[verifier::opaque]
pub open spec fn key_names() -> Seq<Seq<char>> {
    key_names_0() + key_names_1() + key_names_2() + key_names_3() + key_names_4() + key_names_5() + key_names_6() + key_names_7() + key_names_8() + key_names_9()
}

pub open spec fn key_names_0() -> Seq<Seq<char>> {
    seq!["AlbumTitle"@, "SetSubtitle"@, "ShowName"@, "ContentGroup"@, "TrackTitle"@, "TrackSubtitle"@, "OriginalAlbumTitle"@, "OriginalArtist"@, "OriginalLyricist"@, "AlbumTitleSortOrder"@]
}

fn push_key_names_0(v: &mut Vec<&'static str>)
    ensures
        final(v)@.map_values(|s: &str| s@) == old(v)@.map_values(|s: &str| s@) + key_names_0(),
{
    let ghost start = v@.map_values(|s: &str| s@);
    v.push("AlbumTitle");
    v.push("SetSubtitle");
    v.push("ShowName");
    v.push("ContentGroup");
    v.push("TrackTitle");
    v.push("TrackSubtitle");
    v.push("OriginalAlbumTitle");
    v.push("OriginalArtist");
    v.push("OriginalLyricist");
    v.push("AlbumTitleSortOrder");
    assert(v@.map_values(|s: &str| s@) =~= start + key_names_0());
}

pub open spec fn key_names_1() -> Seq<Seq<char>> {
    seq!["AlbumArtistSortOrder"@, "TrackTitleSortOrder"@, "TrackArtistSortOrder"@, "ShowNameSortOrder"@, "ComposerSortOrder"@, "AlbumArtist"@, "TrackArtist"@, "Arranger"@, "Writer"@, "Composer"@]
}

fn push_key_names_1(v: &mut Vec<&'static str>)
    ensures
        final(v)@.map_values(|s: &str| s@) == old(v)@.map_values(|s: &str| s@) + key_names_1(),
{
    let ghost start = v@.map_values(|s: &str| s@);
    v.push("AlbumArtistSortOrder");
    v.push("TrackTitleSortOrder");
    v.push("TrackArtistSortOrder");
    v.push("ShowNameSortOrder");
    v.push("ComposerSortOrder");
    v.push("AlbumArtist");
    v.push("TrackArtist");
    v.push("Arranger");
    v.push("Writer");
    v.push("Composer");
    assert(v@.map_values(|s: &str| s@) =~= start + key_names_1());
}

pub open spec fn key_names_2() -> Seq<Seq<char>> {
    seq!["Conductor"@, "Director"@, "Engineer"@, "Lyricist"@, "MixDj"@, "MixEngineer"@, "Performer"@, "Producer"@, "Publisher"@, "Label"@]
}

fn push_key_names_2(v: &mut Vec<&'static str>)
    ensures
        final(v)@.map_values(|s: &str| s@) == old(v)@.map_values(|s: &str| s@) + key_names_2(),
{
    let ghost start = v@.map_values(|s: &str| s@);
    v.push("Conductor");
    v.push("Director");
    v.push("Engineer");
    v.push("Lyricist");
    v.push("MixDj");
    v.push("MixEngineer");
    v.push("Performer");
    v.push("Producer");
    v.push("Publisher");
    v.push("Label");
    assert(v@.map_values(|s: &str| s@) =~= start + key_names_2());
}

pub open spec fn key_names_3() -> Seq<Seq<char>> {
    seq!["InternetRadioStationName"@, "InternetRadioStationOwner"@, "Remixer"@, "DiscNumber"@, "DiscTotal"@, "TrackNumber"@, "TrackTotal"@, "Popularimeter"@, "ParentalAdvisory"@, "RecordingDate"@]
}

fn push_key_names_3(v: &mut Vec<&'static str>)
    ensures
        final(v)@.map_values(|s: &str| s@) == old(v)@.map_values(|s: &str| s@) + key_names_3(),
{
    let ghost start = v@.map_values(|s: &str| s@);
    v.push("InternetRadioStationName");
    v.push("InternetRadioStationOwner");
    v.push("Remixer");
    v.push("DiscNumber");
    v.push("DiscTotal");
    v.push("TrackNumber");
    v.push("TrackTotal");
    v.push("Popularimeter");
    v.push("ParentalAdvisory");
    v.push("RecordingDate");
    assert(v@.map_values(|s: &str| s@) =~= start + key_names_3());
}

pub open spec fn key_names_4() -> Seq<Seq<char>> {
    seq!["Year"@, "ReleaseDate"@, "OriginalReleaseDate"@, "Isrc"@, "Barcode"@, "CatalogNumber"@, "Work"@, "Movement"@, "MovementNumber"@, "MovementTotal"@]
}

fn push_key_names_4(v: &mut Vec<&'static str>)
    ensures
        final(v)@.map_values(|s: &str| s@) == old(v)@.map_values(|s: &str| s@) + key_names_4(),
{
    let ghost start = v@.map_values(|s: &str| s@);
    v.push("Year");
    v.push("ReleaseDate");
    v.push("OriginalReleaseDate");
    v.push("Isrc");
    v.push("Barcode");
    v.push("CatalogNumber");
    v.push("Work");
    v.push("Movement");
    v.push("MovementNumber");
    v.push("MovementTotal");
    assert(v@.map_values(|s: &str| s@) =~= start + key_names_4());
}

pub open spec fn key_names_5() -> Seq<Seq<char>> {
    seq!["MusicBrainzRecordingId"@, "MusicBrainzTrackId"@, "MusicBrainzReleaseId"@, "MusicBrainzReleaseGroupId"@, "MusicBrainzArtistId"@, "MusicBrainzReleaseArtistId"@, "MusicBrainzWorkId"@, "FlagCompilation"@, "FlagPodcast"@, "FileOwner"@]
}

fn push_key_names_5(v: &mut Vec<&'static str>)
    ensures
        final(v)@.map_values(|s: &str| s@) == old(v)@.map_values(|s: &str| s@) + key_names_5(),
{
    let ghost start = v@.map_values(|s: &str| s@);
    v.push("MusicBrainzRecordingId");
    v.push("MusicBrainzTrackId");
    v.push("MusicBrainzReleaseId");
    v.push("MusicBrainzReleaseGroupId");
    v.push("MusicBrainzArtistId");
    v.push("MusicBrainzReleaseArtistId");
    v.push("MusicBrainzWorkId");
    v.push("FlagCompilation");
    v.push("FlagPodcast");
    v.push("FileOwner");
    assert(v@.map_values(|s: &str| s@) =~= start + key_names_5());
}

pub open spec fn key_names_6() -> Seq<Seq<char>> {
    seq!["TaggingTime"@, "Length"@, "OriginalFileName"@, "OriginalMediaType"@, "EncodedBy"@, "EncoderSoftware"@, "EncoderSettings"@, "EncodingTime"@, "ReplayGainAlbumGain"@, "ReplayGainAlbumPeak"@]
}

fn push_key_names_6(v: &mut Vec<&'static str>)
    ensures
        final(v)@.map_values(|s: &str| s@) == old(v)@.map_values(|s: &str| s@) + key_names_6(),
{
    let ghost start = v@.map_values(|s: &str| s@);
    v.push("TaggingTime");
    v.push("Length");
    v.push("OriginalFileName");
    v.push("OriginalMediaType");
    v.push("EncodedBy");
    v.push("EncoderSoftware");
    v.push("EncoderSettings");
    v.push("EncodingTime");
    v.push("ReplayGainAlbumGain");
    v.push("ReplayGainAlbumPeak");
    assert(v@.map_values(|s: &str| s@) =~= start + key_names_6());
}

pub open spec fn key_names_7() -> Seq<Seq<char>> {
    seq!["ReplayGainTrackGain"@, "ReplayGainTrackPeak"@, "AudioFileUrl"@, "AudioSourceUrl"@, "CommercialInformationUrl"@, "CopyrightUrl"@, "TrackArtistUrl"@, "RadioStationUrl"@, "PaymentUrl"@, "PublisherUrl"@]
}

fn push_key_names_7(v: &mut Vec<&'static str>)
    ensures
        final(v)@.map_values(|s: &str| s@) == old(v)@.map_values(|s: &str| s@) + key_names_7(),
{
    let ghost start = v@.map_values(|s: &str| s@);
    v.push("ReplayGainTrackGain");
    v.push("ReplayGainTrackPeak");
    v.push("AudioFileUrl");
    v.push("AudioSourceUrl");
    v.push("CommercialInformationUrl");
    v.push("CopyrightUrl");
    v.push("TrackArtistUrl");
    v.push("RadioStationUrl");
    v.push("PaymentUrl");
    v.push("PublisherUrl");
    assert(v@.map_values(|s: &str| s@) =~= start + key_names_7());
}

pub open spec fn key_names_8() -> Seq<Seq<char>> {
    seq!["Genre"@, "InitialKey"@, "Color"@, "Mood"@, "Bpm"@, "IntegerBpm"@, "CopyrightMessage"@, "License"@, "PodcastDescription"@, "PodcastSeriesCategory"@]
}

fn push_key_names_8(v: &mut Vec<&'static str>)
    ensures
        final(v)@.map_values(|s: &str| s@) == old(v)@.map_values(|s: &str| s@) + key_names_8(),
{
    let ghost start = v@.map_values(|s: &str| s@);
    v.push("Genre");
    v.push("InitialKey");
    v.push("Color");
    v.push("Mood");
    v.push("Bpm");
    v.push("IntegerBpm");
    v.push("CopyrightMessage");
    v.push("License");
    v.push("PodcastDescription");
    v.push("PodcastSeriesCategory");
    assert(v@.map_values(|s: &str| s@) =~= start + key_names_8());
}

pub open spec fn key_names_9() -> Seq<Seq<char>> {
    seq!["PodcastUrl"@, "PodcastGlobalUniqueId"@, "PodcastKeywords"@, "Comment"@, "Description"@, "Language"@, "Script"@, "Lyrics"@, "AppleXid"@, "AppleId3v2ContentGroup"@]
}

fn push_key_names_9(v: &mut Vec<&'static str>)
    ensures
        final(v)@.map_values(|s: &str| s@) == old(v)@.map_values(|s: &str| s@) + key_names_9(),
{
    let ghost start = v@.map_values(|s: &str| s@);
    v.push("PodcastUrl");
    v.push("PodcastGlobalUniqueId");
    v.push("PodcastKeywords");
    v.push("Comment");
    v.push("Description");
    v.push("Language");
    v.push("Script");
    v.push("Lyrics");
    v.push("AppleXid");
    v.push("AppleId3v2ContentGroup");
    assert(v@.map_values(|s: &str| s@) =~= start + key_names_9());
}

/// The PascalCase form in which a key name is converted: one name is
/// spelled with a capital `V` so that its parts are found.
pub open spec fn pascal_form(name: Seq<char>) -> Seq<char> {
    if name == "AppleId3v2ContentGroup"@ {
        "AppleId3V2ContentGroup"@
    } else {
        name
    }
}

/// The shorter names: `Album`, `Artist`, `AlbumSort`, `DiskNumber` and
/// `Title`, with the key each stands for.
pub open spec fn aliases() -> Seq<(Seq<char>, nat)> {
    seq![
        ("Album"@, 0nat),
        ("Artist"@, 16nat),
        ("AlbumSort"@, 9nat),
        ("DiskNumber"@, 33nat),
        ("Title"@, 4nat),
    ]
}

/// The names entered, with their keys: every key, then the aliases.
pub open spec fn name_sources() -> Seq<(Seq<char>, nat)> {
    Seq::new(key_names().len(), |i: int| (pascal_form(key_names()[i]), i as nat)) + aliases()
}

/// The names that `source` is entered under: one per case style, the
/// first (camel case) marked.
pub open spec fn styled_names(source: (Seq<char>, nat)) -> Seq<(Seq<char>, nat, bool)> {
    Seq::new(9, |c: int| (converted_case(source.0, case_styles()[c]), source.1, c == 0))
}

/// Every name entered, in order.
pub open spec fn candidates_of(sources: Seq<(Seq<char>, nat)>) -> Seq<(Seq<char>, nat, bool)>
    decreases sources.len(),
{
    if sources.len() == 0 {
        seq![]
    } else {
        candidates_of(sources.drop_last()) + styled_names(sources.last())
    }
}

pub open spec fn all_candidates() -> Seq<(Seq<char>, nat, bool)> {
    candidates_of(name_sources())
}

/// The key of the first entry named `s`.
pub open spec fn first_match(c: Seq<(Seq<char>, nat, bool)>, s: Seq<char>) -> Option<nat>
    decreases c.len(),
{
    if c.len() == 0 {
        None
    } else {
        match first_match(c.drop_last(), s) {
            Some(k) => Some(k),
            None => if c.last().0 == s {
                Some(c.last().1)
            } else {
                None
            },
        }
    }
}

/// Whether a name in camel case was already entered: entering the keys
/// then fails.
pub open spec fn has_collision(c: Seq<(Seq<char>, nat, bool)>) -> bool
    decreases c.len(),
{
    if c.len() == 0 {
        false
    } else {
        has_collision(c.drop_last()) || (c.last().2 && first_match(c.drop_last(), c.last().0)
            is Some)
    }
}

/// The key of the first entry of a table named `s`.
pub open spec fn table_lookup(t: Seq<(Seq<char>, nat)>, s: Seq<char>) -> Option<nat>
    decreases t.len(),
{
    if t.len() == 0 {
        None
    } else {
        match table_lookup(t.drop_last(), s) {
            Some(k) => Some(k),
            None => if t.last().0 == s {
                Some(t.last().1)
            } else {
                None
            },
        }
    }
}

/// The table from names to keys.
#[derive(Debug)]
pub struct ItemKeys {
    table: Vec<(String, usize)>,
}

impl View for ItemKeys {
    type V = Seq<(Seq<char>, nat)>;

    closed spec fn view(&self) -> Seq<(Seq<char>, nat)> {
        source_views(self.table@)
    }
}

pub open spec fn source_views(v: Seq<(String, usize)>) -> Seq<(Seq<char>, nat)> {
    v.map_values(|p: (String, usize)| (p.0@, p.1 as nat))
}

fn pascal_form_exec(name: &str) -> (r: String)
    ensures
        r@ == pascal_form(name@),
{
    let n = chars_of(name);
    let special = chars_of("AppleId3v2ContentGroup");
    if chars_eq(&n, &special) {
        "AppleId3V2ContentGroup".to_owned()
    } else {
        name.to_owned()
    }
}

fn push_source(v: &mut Vec<(String, usize)>, name: &str, key: usize)
    ensures
        source_views(final(v)@) == source_views(old(v)@).push((name@, key as nat)),
{
    let ghost before = source_views(v@);
    v.push((name.to_owned(), key));
    assert(source_views(v@) =~= before.push((name@, key as nat)));
}

/// The names entered, with their keys (see [`name_sources`]).
fn sources() -> (r: Vec<(String, usize)>)
    ensures
        source_views(r@) == name_sources(),
{
    let names = ItemKeys::all();
    let ghost kn = key_names();
    let mut v: Vec<(String, usize)> = Vec::new();
    let mut i: usize = 0;
    while i < names.len()
        invariant
            i <= names@.len(),
            names@.map_values(|s: &str| s@) == kn,
            kn == key_names(),
            source_views(v@) == Seq::new(i as nat, |j: int| (pascal_form(kn[j]), j as nat)),
        decreases names.len() - i,
    {
        let ghost before = source_views(v@);
        assert(kn[i as int] == names@[i as int]@);
        let p = pascal_form_exec(names[i]);
        let ghost pv = p@;
        v.push((p, i));
        assert(source_views(v@) =~= before.push((pv, i as nat)));
        assert(pv == pascal_form(kn[i as int]));
        assert(source_views(v@) =~= Seq::new((i + 1) as nat, |j: int| (pascal_form(kn[j]), j as nat)));
        i = i + 1;
    }
    let ghost keys_part = source_views(v@);
    push_source(&mut v, "Album", 0);
    push_source(&mut v, "Artist", 16);
    push_source(&mut v, "AlbumSort", 9);
    push_source(&mut v, "DiskNumber", 33);
    push_source(&mut v, "Title", 4);
    assert(source_views(v@) =~= keys_part + aliases());
    assert(keys_part =~= Seq::new(key_names().len(), |j: int| (pascal_form(key_names()[j]), j as nat)));
    v
}

proof fn lemma_candidates_concat(a: Seq<(Seq<char>, nat)>, b: Seq<(Seq<char>, nat)>)
    ensures
        candidates_of(a + b) == candidates_of(a) + candidates_of(b),
    decreases b.len(),
{
    if b.len() == 0 {
        assert(a + b =~= a);
        assert(candidates_of(a) + candidates_of(b) =~= candidates_of(a));
    } else {
        lemma_candidates_concat(a, b.drop_last());
        assert((a + b).drop_last() =~= a + b.drop_last());
        assert((a + b).last() == b.last());
        assert(candidates_of(a) + candidates_of(b.drop_last()) + styled_names(b.last())
            =~= candidates_of(a) + (candidates_of(b.drop_last()) + styled_names(b.last())));
    }
}

proof fn lemma_collision_extends(x: Seq<(Seq<char>, nat, bool)>, y: Seq<(Seq<char>, nat, bool)>)
    requires
        has_collision(x),
    ensures
        has_collision(x + y),
    decreases y.len(),
{
    if y.len() == 0 {
        assert(x + y =~= x);
    } else {
        lemma_collision_extends(x, y.drop_last());
        assert((x + y).drop_last() =~= x + y.drop_last());
    }
}

/// The index of the first entry of the table named `name`.
fn lookup(table: &Vec<(String, usize)>, name: &str) -> (r: Option<usize>)
    ensures
        match table_lookup(source_views(table@), name@) {
            Some(k) => r == Some(k as usize),
            None => r is None,
        },
{
    let ghost t = source_views(table@);
    let n = chars_of(name);
    let mut i: usize = 0;
    while i < table.len()
        invariant
            i <= table@.len(),
            t == source_views(table@),
            n@ == name@,
            table_lookup(t.take(i as int), name@) is None,
        decreases table.len() - i,
    {
        let c = chars_of(table[i].0.as_str());
        assert(t.take(i + 1).drop_last() =~= t.take(i as int));
        assert(t[i as int] == (table@[i as int].0@, table@[i as int].1 as nat));
        if chars_eq(&c, &n) {
            proof {
                lemma_table_lookup_extends(t, name@, i as int + 1);
            }
            return Some(table[i].1);
        }
        i = i + 1;
    }
    assert(t.take(i as int) =~= t);
    None
}

proof fn lemma_table_lookup_extends(t: Seq<(Seq<char>, nat)>, s: Seq<char>, k: int)
    requires
        0 <= k <= t.len(),
        table_lookup(t.take(k), s) is Some,
    ensures
        table_lookup(t, s) == table_lookup(t.take(k), s),
    decreases t.len() - k,
{
    if k < t.len() {
        assert(t.take(k + 1).drop_last() =~= t.take(k));
        lemma_table_lookup_extends(t, s, k + 1);
    } else {
        assert(t.take(k) =~= t);
    }
}

/// Every entry names one of the keys.
proof fn lemma_first_match_key_bound(c: Seq<(Seq<char>, nat, bool)>, s: Seq<char>, bound: nat)
    requires
        forall|j: int| 0 <= j < c.len() ==> (#[trigger] c[j]).1 < bound,
    ensures
        first_match(c, s) matches Some(k) ==> k < bound,
    decreases c.len(),
{
    if c.len() > 0 {
        assert forall|j: int| 0 <= j < c.drop_last().len() implies (#[trigger] c.drop_last()[j]).1
            < bound by {
            assert(c.drop_last()[j] == c[j]);
        }
        lemma_first_match_key_bound(c.drop_last(), s, bound);
        assert(c.last() == c[c.len() - 1]);
    }
}

proof fn lemma_candidate_keys_bound(src: Seq<(Seq<char>, nat)>, bound: nat)
    requires
        forall|j: int| 0 <= j < src.len() ==> (#[trigger] src[j]).1 < bound,
    ensures
        forall|j: int|
            0 <= j < candidates_of(src).len() ==> (#[trigger] candidates_of(src)[j]).1 < bound,
    decreases src.len(),
{
    if src.len() > 0 {
        assert forall|j: int| 0 <= j < src.drop_last().len() implies (#[trigger] src.drop_last()[j]).1
            < bound by {
            assert(src.drop_last()[j] == src[j]);
        }
        lemma_candidate_keys_bound(src.drop_last(), bound);
        let a = candidates_of(src.drop_last());
        let b = styled_names(src.last());
        assert(src.last() == src[src.len() - 1]);
        assert forall|j: int| 0 <= j < (a + b).len() implies (#[trigger] (a + b)[j]).1 < bound by {
            if j < a.len() {
                assert((a + b)[j] == a[j]);
            } else {
                assert((a + b)[j] == b[j - a.len()]);
            }
        }
    }
}

/// The keys that names stand for are positions in [`key_names`].
pub proof fn lemma_keys_in_range(s: Seq<char>)
    ensures
        first_match(all_candidates(), s) matches Some(k) ==> k < 100,
{
    reveal(key_names);
    let src = name_sources();
    assert(key_names().len() == 100);
    assert forall|j: int| 0 <= j < src.len() implies (#[trigger] src[j]).1 < 100 by {
        if j >= 100 {
            assert(src[j] == aliases()[j - 100]);
        }
    }
    lemma_candidate_keys_bound(src, 100);
    lemma_first_match_key_bound(all_candidates(), s, 100);
}

impl ItemKeys {
    /// The names of the keys (see [`key_names`]).
    pub fn all() -> (r: Vec<&'static str>)
        ensures
            r@.map_values(|s: &str| s@) == key_names(),
    {
        reveal(key_names);
        let mut v: Vec<&'static str> = Vec::new();
        assert(v@.map_values(|s: &str| s@) =~= Seq::<Seq<char>>::empty());
        push_key_names_0(&mut v);
        push_key_names_1(&mut v);
        push_key_names_2(&mut v);
        push_key_names_3(&mut v);
        push_key_names_4(&mut v);
        push_key_names_5(&mut v);
        push_key_names_6(&mut v);
        push_key_names_7(&mut v);
        push_key_names_8(&mut v);
        push_key_names_9(&mut v);
        assert(v@.map_values(|s: &str| s@) =~= key_names());
        v
    }

    /// Every name is answered with the key of its first entry.
    pub closed spec fn well_formed(&self) -> bool {
        forall|s: Seq<char>| #[trigger] table_lookup(self@, s) == first_match(all_candidates(), s)
    }

    /// Enters every key under its name in each case style, then the
    /// aliases; a name already entered keeps its first key. `None` when a
    /// name in camel case was already entered (the table is then not
    /// usable).
    pub fn build() -> (r: Option<ItemKeys>)
        ensures
            r is None <==> has_collision(all_candidates()),
            r matches Some(t) ==> t.well_formed(),
    {
        let src = sources();
        let ghost sv = source_views(src@);
        let mut table: Vec<(String, usize)> = Vec::new();
        let mut i: usize = 0;
        assert(sv.take(0) =~= Seq::<(Seq<char>, nat)>::empty());
        while i < src.len()
            invariant
                i <= src@.len(),
                sv == source_views(src@),
                sv == name_sources(),
                !has_collision(candidates_of(sv.take(i as int))),
                forall|s: Seq<char>|
                    #[trigger] table_lookup(source_views(table@), s) == first_match(
                        candidates_of(sv.take(i as int)),
                        s,
                    ),
            decreases src.len() - i,
        {
            let ghost prefix = candidates_of(sv.take(i as int));
            let ghost block = styled_names(sv[i as int]);
            assert(sv[i as int] == (src@[i as int].0@, src@[i as int].1 as nat));
            assert(prefix + block.take(0) =~= prefix);
            let mut c: usize = 0;
            while c < 9
                invariant
                    c <= 9,
                    i < src@.len(),
                    sv == source_views(src@),
                    sv == name_sources(),
                    prefix == candidates_of(sv.take(i as int)),
                    block == styled_names(sv[i as int]),
                    sv[i as int] == (src@[i as int].0@, src@[i as int].1 as nat),
                    !has_collision(prefix + block.take(c as int)),
                    forall|s: Seq<char>|
                        #[trigger] table_lookup(source_views(table@), s) == first_match(
                            prefix + block.take(c as int),
                            s,
                        ),
                decreases 9 - c,
            {
                let ghost cur = prefix + block.take(c as int);
                let ghost next = prefix + block.take(c + 1);
                assert(next.drop_last() =~= cur);
                assert(next.last() == block[c as int]);
                let style = case_style_at(c);
                let name = convert_pascal(src[i].0.as_str(), style);
                assert(block[c as int] == (name@, src@[i as int].1 as nat, c == 0));
                match lookup(&table, name.as_str()) {
                    Some(_) => {
                        if c == 0 {
                            proof {
                                assert(has_collision(next));
                                lemma_collision_extends(next, block.skip(1));
                                assert(next + block.skip(1) =~= prefix + block);
                                assert(sv.take(i + 1).drop_last() =~= sv.take(i as int));
                                lemma_collision_extends(
                                    prefix + block,
                                    candidates_of(sv.skip(i + 1)),
                                );
                                lemma_candidates_concat(sv.take(i + 1), sv.skip(i + 1));
                                assert(sv.take(i + 1) + sv.skip(i + 1) =~= sv);
                            }
                            return None;
                        }
                        assert forall|s: Seq<char>|
                            #[trigger] table_lookup(source_views(table@), s) == first_match(
                                next,
                                s,
                            ) by {
                            assert(table_lookup(source_views(table@), s) == first_match(cur, s));
                        }
                    },
                    None => {
                        let ghost before = source_views(table@);
                        let key = src[i].1;
                        table.push((name, key));
                        assert(source_views(table@) =~= before.push((block[c as int].0, key as nat)));
                        assert(source_views(table@).drop_last() =~= before);
                        assert forall|s: Seq<char>|
                            #[trigger] table_lookup(source_views(table@), s) == first_match(
                                next,
                                s,
                            ) by {
                            assert(table_lookup(before, s) == first_match(cur, s));
                        }
                    },
                }
                c = c + 1;
            }
            assert(prefix + block.take(9) =~= prefix + block);
            assert(sv.take(i + 1).drop_last() =~= sv.take(i as int));
            assert(sv.take(i + 1).last() == sv[i as int]);
            i = i + 1;
        }
        assert(sv.take(src@.len() as int) =~= sv);
        let r = ItemKeys { table };
        assert forall|s: Seq<char>| #[trigger] table_lookup(r@, s) == first_match(
            all_candidates(),
            s,
        ) by {
            assert(table_lookup(source_views(r.table@), s) == first_match(
                candidates_of(sv.take(src@.len() as int)),
                s,
            ));
        }
        Some(r)
    }

    /// The key named `s` (by its position in [`key_names`]); an unknown
    /// name is an `UnknownTag` error.
    pub fn from_string(&self, s: &str) -> (r: Result<usize, TFMTError>)
        requires
            self.well_formed(),
        ensures
            match first_match(all_candidates(), s@) {
                Some(k) => r == Ok::<usize, TFMTError>(k as usize),
                None => r matches Err(e) && e@ == TFMTErrorView::UnknownTag(s@),
            },
            r matches Ok(k) ==> k < 100,
    {
        proof {
            lemma_keys_in_range(s@);
        }
        assert(table_lookup(self@, s@) == first_match(all_candidates(), s@));
        match lookup(&self.table, s) {
            Some(k) => Ok(k),
            None => Err(TFMTError::UnknownTag(s.to_owned())),
        }
    }
}

/// How the key at position `key` is read: the totals of disc, track and
/// movement as totals, their numbers as numbers, all others as they are.
pub open spec fn tag_kind_spec(key: nat) -> TagKind {
    if key == 34 || key == 36 || key == 49 {
        TagKind::Total
    } else if key == 35 || key == 33 || key == 48 {
        TagKind::Number
    } else {
        TagKind::Plain
    }
}

pub fn tag_kind(key: usize) -> (r: TagKind)
    ensures
        r == tag_kind_spec(key as nat),
{
    if key == 34 || key == 36 || key == 49 {
        TagKind::Total
    } else if key == 35 || key == 33 || key == 48 {
        TagKind::Number
    } else {
        TagKind::Plain
    }
}

} // verus!
