//! The library of tracks, albums, artists, playlists and tags.
//!
//! The server sends each collection as an object that holds one row per id and, under `map`, the
//! column in which each field of a row is found.

use std::cmp::Ordering;
use std::collections::BTreeMap;

use vstd::prelude::*;

use crate::error::{AppError, Result};
use crate::json::{
    fields_view, find_field, first_field, items_view, referred, signed_value, unsigned_value,
    value_to_i64, value_to_u64, Json, JsonView,
};
use crate::sorting::{
    distinct_ids, in_order, listed_before, name_order, sorted_positions, TrackKey, TrackKeyView,
};
use crate::text::{
    chars_of, contains_str, contains_text, decimal, decimal2, lowercase, parse_u64_text,
    parsed_u64, push_decimal, push_decimal2, same_text, to_lowercase, trim, trimmed, CharSet,
};

verus! {

broadcast use vstd::std_specs::btree::group_btree_axioms;

#[derive(Debug)]
pub struct Library {
    pub tracks: BTreeMap<u64, Track>,
    pub albums: BTreeMap<u64, Album>,
    pub artists: BTreeMap<u64, Artist>,
    pub playlists: BTreeMap<u64, Playlist>,
    pub tags: BTreeMap<u64, Tag>,
    pub status: Option<Json>,
    pub expires: Option<i64>,
}

#[derive(Clone, Debug)]
pub struct Track {
    pub id: u64,
    pub track: i64,
    pub year: i64,
    pub title: String,
    pub genre: String,
    pub length: i64,
    pub album_id: u64,
    pub artwork_id: u64,
    pub artist_id: u64,
    pub uploaded_on: String,
    pub trashed: bool,
    pub size: u64,
    pub path: String,
    pub rating: i64,
    pub plays: i64,
    pub file: String,
    pub mime_type: String,
    pub replay_gain: String,
}

#[derive(Clone, Debug)]
pub struct Album {
    pub id: u64,
    pub name: String,
    pub tracks: Vec<u64>,
    pub artist_id: u64,
    pub trashed: bool,
    pub rating: i64,
    pub year: i64,
    pub disc: i64,
}

#[derive(Clone, Debug)]
pub struct Artist {
    pub id: u64,
    pub name: String,
    pub tracks: Vec<u64>,
    pub trashed: bool,
    pub rating: i64,
}

#[derive(Clone, Debug)]
pub struct Playlist {
    pub id: u64,
    pub name: String,
    pub tracks: Vec<u64>,
    pub description: String,
    pub system_created: bool,
}

#[derive(Clone, Debug)]
pub struct Tag {
    pub id: u64,
    pub name: String,
    pub archived: bool,
    pub tracks: Vec<u64>,
}

pub struct LibraryView {
    pub tracks: Map<u64, TrackView>,
    pub albums: Map<u64, AlbumView>,
    pub artists: Map<u64, ArtistView>,
    pub playlists: Map<u64, PlaylistView>,
    pub tags: Map<u64, TagView>,
    pub status: Option<JsonView>,
    pub expires: Option<i64>,
}

pub struct TrackView {
    pub id: u64,
    pub track: i64,
    pub year: i64,
    pub title: Seq<char>,
    pub genre: Seq<char>,
    pub length: i64,
    pub album_id: u64,
    pub artwork_id: u64,
    pub artist_id: u64,
    pub uploaded_on: Seq<char>,
    pub trashed: bool,
    pub size: u64,
    pub path: Seq<char>,
    pub rating: i64,
    pub plays: i64,
    pub file: Seq<char>,
    pub mime_type: Seq<char>,
    pub replay_gain: Seq<char>,
}

pub struct AlbumView {
    pub id: u64,
    pub name: Seq<char>,
    pub tracks: Seq<u64>,
    pub artist_id: u64,
    pub trashed: bool,
    pub rating: i64,
    pub year: i64,
    pub disc: i64,
}

pub struct ArtistView {
    pub id: u64,
    pub name: Seq<char>,
    pub tracks: Seq<u64>,
    pub trashed: bool,
    pub rating: i64,
}

pub struct PlaylistView {
    pub id: u64,
    pub name: Seq<char>,
    pub tracks: Seq<u64>,
    pub description: Seq<char>,
    pub system_created: bool,
}

pub struct TagView {
    pub id: u64,
    pub name: Seq<char>,
    pub archived: bool,
    pub tracks: Seq<u64>,
}

impl View for Track {
    type V = TrackView;

    open spec fn view(&self) -> TrackView {
        TrackView {
            id: self.id,
            track: self.track,
            year: self.year,
            title: self.title@,
            genre: self.genre@,
            length: self.length,
            album_id: self.album_id,
            artwork_id: self.artwork_id,
            artist_id: self.artist_id,
            uploaded_on: self.uploaded_on@,
            trashed: self.trashed,
            size: self.size,
            path: self.path@,
            rating: self.rating,
            plays: self.plays,
            file: self.file@,
            mime_type: self.mime_type@,
            replay_gain: self.replay_gain@,
        }
    }
}

impl View for Album {
    type V = AlbumView;

    open spec fn view(&self) -> AlbumView {
        AlbumView {
            id: self.id,
            name: self.name@,
            tracks: self.tracks@,
            artist_id: self.artist_id,
            trashed: self.trashed,
            rating: self.rating,
            year: self.year,
            disc: self.disc,
        }
    }
}

impl View for Artist {
    type V = ArtistView;

    open spec fn view(&self) -> ArtistView {
        ArtistView {
            id: self.id,
            name: self.name@,
            tracks: self.tracks@,
            trashed: self.trashed,
            rating: self.rating,
        }
    }
}

impl View for Playlist {
    type V = PlaylistView;

    open spec fn view(&self) -> PlaylistView {
        PlaylistView {
            id: self.id,
            name: self.name@,
            tracks: self.tracks@,
            description: self.description@,
            system_created: self.system_created,
        }
    }
}

impl View for Tag {
    type V = TagView;

    open spec fn view(&self) -> TagView {
        TagView {
            id: self.id,
            name: self.name@,
            archived: self.archived,
            tracks: self.tracks@,
        }
    }
}

/// The entries of a map, each by its view.
pub open spec fn viewed<T: View>(map: Map<u64, T>) -> Map<u64, T::V> {
    Map::new(|id: u64| map.dom().contains(id), |id: u64| map[id]@)
}

impl View for Library {
    type V = LibraryView;

    open spec fn view(&self) -> LibraryView {
        LibraryView {
            tracks: viewed(self.tracks@),
            albums: viewed(self.albums@),
            artists: viewed(self.artists@),
            playlists: viewed(self.playlists@),
            tags: viewed(self.tags@),
            status: match self.status {
                Some(status) => Some(status@),
                None => None,
            },
            expires: self.expires,
        }
    }
}

/// Where the fields of one entry of a collection are found.
#[derive(Debug)]
pub enum Fields<'a> {
    /// In a row, under the columns that the collection names.
    Row { columns: Option<&'a Vec<(String, Json)>>, row: &'a Vec<Json> },
    /// In an object of its own.
    Object(&'a Vec<(String, Json)>),
}

pub enum FieldsView {
    Row { columns: Seq<(Seq<char>, JsonView)>, row: Seq<JsonView> },
    Object(Seq<(Seq<char>, JsonView)>),
}

/// The field that heads the given column: the last one that names it.
pub open spec fn heading(columns: Seq<(Seq<char>, JsonView)>, index: int) -> Option<Seq<char>>
    decreases columns.len(),
{
    if columns.len() == 0 {
        None
    } else {
        match unsigned_value(columns.last().1) {
            Some(column) => if column == index {
                Some(columns.last().0)
            } else {
                heading(columns.drop_last(), index)
            },
            None => heading(columns.drop_last(), index),
        }
    }
}

/// The value in the last column that the field heads.
pub open spec fn row_field(
    columns: Seq<(Seq<char>, JsonView)>,
    row: Seq<JsonView>,
    name: Seq<char>,
) -> Option<JsonView>
    decreases row.len(),
{
    if row.len() == 0 {
        None
    } else if heading(columns, row.len() - 1) == Some(name) {
        Some(row.last())
    } else {
        row_field(columns, row.drop_last(), name)
    }
}

impl FieldsView {
    pub open spec fn field(self, name: Seq<char>) -> Option<JsonView> {
        match self {
            FieldsView::Row { columns, row } => row_field(columns, row, name),
            FieldsView::Object(fields) => first_field(fields, name),
        }
    }

    /// A text field: a text, or the text by which a number is written.
    pub open spec fn text(self, name: Seq<char>, default: Seq<char>) -> Seq<char> {
        match self.field(name) {
            Some(JsonView::Text(text)) => text,
            Some(JsonView::Number { text, .. }) => text,
            _ => default,
        }
    }

    pub open spec fn unsigned(self, name: Seq<char>) -> u64 {
        match self.field(name) {
            Some(value) => match unsigned_value(value) {
                Some(number) => number,
                None => 0,
            },
            None => 0,
        }
    }

    pub open spec fn signed(self, name: Seq<char>) -> i64 {
        match self.field(name) {
            Some(value) => match signed_value(value) {
                Some(number) => number,
                None => 0,
            },
            None => 0,
        }
    }

    pub open spec fn flag(self, name: Seq<char>) -> bool {
        self.field(name) == Some(JsonView::Bool(true))
    }

    pub open spec fn ids(self, name: Seq<char>) -> Seq<u64> {
        match self.field(name) {
            Some(JsonView::Array(items)) => unsigned_values(items),
            _ => Seq::empty(),
        }
    }
}

/// The unsigned numbers among the values.
pub open spec fn unsigned_values(items: Seq<JsonView>) -> Seq<u64>
    decreases items.len(),
{
    if items.len() == 0 {
        Seq::empty()
    } else {
        match unsigned_value(items.last()) {
            Some(number) => unsigned_values(items.drop_last()).push(number),
            None => unsigned_values(items.drop_last()),
        }
    }
}

/// The columns that a collection names, if it names any.
pub open spec fn columns_view(columns: Option<&Vec<(String, Json)>>) -> Seq<
    (Seq<char>, JsonView),
> {
    match columns {
        Some(named) => fields_view(named@),
        None => Seq::empty(),
    }
}

impl<'a> View for Fields<'a> {
    type V = FieldsView;

    open spec fn view(&self) -> FieldsView {
        match self {
            Fields::Row { columns, row } => FieldsView::Row {
                columns: columns_view(*columns),
                row: items_view(row@),
            },
            Fields::Object(fields) => FieldsView::Object(fields_view(fields@)),
        }
    }
}

/// Whether `name` heads the given column.
fn heads(columns: &Vec<(String, Json)>, index: usize, name: &str) -> (res: bool)
    ensures
        res == (heading(fields_view(columns@), index as int) == Some(name@)),
{
    let ghost all = fields_view(columns@);
    let mut i: usize = columns.len();
    assert(all.take(i as int) =~= all);
    while i > 0
        invariant
            i <= columns@.len(),
            all == fields_view(columns@),
            heading(all, index as int) == heading(all.take(i as int), index as int),
        decreases i,
    {
        i = i - 1;
        assert(all.take(i + 1).drop_last() =~= all.take(i as int));
        assert(all.take(i + 1).last() == (columns@[i as int].0@, columns@[i as int].1@));
        if let Some(column) = value_to_u64(&columns[i].1) {
            if column == index as u64 {
                return same_text(columns[i].0.as_str(), name);
            }
        }
    }
    false
}

/// Without named columns no field is found.
proof fn lemma_no_columns(row: Seq<JsonView>, name: Seq<char>)
    ensures
        row_field(Seq::empty(), row, name) is None,
    decreases row.len(),
{
    if row.len() > 0 {
        lemma_no_columns(row.drop_last(), name);
    }
}

impl<'a> Fields<'a> {
    /// The field of the given name.
    pub fn get(&self, name: &str) -> (res: Option<&'a Json>)
        ensures
            referred(res) == self@.field(name@),
    {
        match self {
            Fields::Object(fields) => find_field(fields, name),
            Fields::Row { columns: None, .. } => {
                proof {
                    lemma_no_columns(self@->Row_row, name@);
                }
                None
            },
            Fields::Row { columns: Some(columns), row } => {
                let ghost all = items_view(row@);
                let mut i: usize = row.len();
                assert(all.take(i as int) =~= all);
                while i > 0
                    invariant
                        i <= row@.len(),
                        all == items_view(row@),
                        row_field(fields_view(columns@), all, name@) == row_field(
                            fields_view(columns@),
                            all.take(i as int),
                            name@,
                        ),
                        self@ == (FieldsView::Row { columns: fields_view(columns@), row: all }),
                    decreases i,
                {
                    i = i - 1;
                    assert(all.take(i + 1).drop_last() =~= all.take(i as int));
                    assert(all.take(i + 1).last() == row@[i as int]@);
                    if heads(columns, i, name) {
                        return Some(&row[i]);
                    }
                }
                None
            },
        }
    }
}

/// The text of a field.
pub fn get_string(fields: &Fields<'_>, key: &str, default: &str) -> (res: String)
    ensures
        res@ == fields@.text(key@, default@),
{
    match fields.get(key) {
        Some(Json::Text(text)) => text.clone(),
        Some(Json::Number(number)) => number.text.clone(),
        _ => default.to_owned(),
    }
}

pub fn get_u64(fields: &Fields<'_>, key: &str) -> (res: u64)
    ensures
        res == fields@.unsigned(key@),
{
    match fields.get(key) {
        Some(value) => match value_to_u64(value) {
            Some(number) => number,
            None => 0,
        },
        None => 0,
    }
}

pub fn get_i64(fields: &Fields<'_>, key: &str) -> (res: i64)
    ensures
        res == fields@.signed(key@),
{
    match fields.get(key) {
        Some(value) => match value_to_i64(value) {
            Some(number) => number,
            None => 0,
        },
        None => 0,
    }
}

pub fn get_bool(fields: &Fields<'_>, key: &str) -> (res: bool)
    ensures
        res == fields@.flag(key@),
{
    match fields.get(key) {
        Some(Json::Bool(value)) => *value,
        _ => false,
    }
}

pub fn get_vec_u64(fields: &Fields<'_>, key: &str) -> (res: Vec<u64>)
    ensures
        res@ == fields@.ids(key@),
{
    let mut out: Vec<u64> = Vec::new();
    if let Some(value) = fields.get(key) {
        if let Some(items) = value.as_array() {
            let ghost all = items_view(items@);
            let mut i: usize = 0;
            assert(all.take(0) =~= Seq::<JsonView>::empty());
            while i < items.len()
                invariant
                    i <= items@.len(),
                    all == items_view(items@),
                    out@ == unsigned_values(all.take(i as int)),
                decreases items@.len() - i,
            {
                assert(all.take(i + 1).drop_last() =~= all.take(i as int));
                assert(all.take(i + 1).last() == items@[i as int]@);
                if let Some(number) = value_to_u64(&items[i]) {
                    out.push(number);
                }
                i = i + 1;
            }
            assert(all.take(i as int) =~= all);
        }
    }
    out
}

impl TrackView {
    pub open spec fn decoded(id: u64, fields: FieldsView) -> TrackView {
        TrackView {
            id,
            track: fields.signed("track"@),
            year: fields.signed("year"@),
            title: fields.text("title"@, "Untitled"@),
            genre: fields.text("genre"@, ""@),
            length: fields.signed("length"@),
            album_id: fields.unsigned("album_id"@),
            artwork_id: fields.unsigned("artwork_id"@),
            artist_id: fields.unsigned("artist_id"@),
            uploaded_on: fields.text("uploaded_on"@, ""@),
            trashed: fields.flag("trashed"@),
            size: fields.unsigned("size"@),
            path: fields.text("path"@, ""@),
            rating: fields.signed("rating"@),
            plays: fields.signed("plays"@),
            file: fields.text("file"@, ""@),
            mime_type: fields.text("type"@, ""@),
            replay_gain: fields.text("replay_gain"@, ""@),
        }
    }
}

impl AlbumView {
    pub open spec fn decoded(id: u64, fields: FieldsView) -> AlbumView {
        AlbumView {
            id,
            name: fields.text("name"@, "Unknown Album"@),
            tracks: fields.ids("tracks"@),
            artist_id: fields.unsigned("artist_id"@),
            trashed: fields.flag("trashed"@),
            rating: fields.signed("rating"@),
            year: fields.signed("year"@),
            disc: fields.signed("disc"@),
        }
    }
}

impl ArtistView {
    pub open spec fn decoded(id: u64, fields: FieldsView) -> ArtistView {
        ArtistView {
            id,
            name: fields.text("name"@, "Unknown Artist"@),
            tracks: fields.ids("tracks"@),
            trashed: fields.flag("trashed"@),
            rating: fields.signed("rating"@),
        }
    }
}

impl PlaylistView {
    pub open spec fn decoded(id: u64, fields: FieldsView) -> PlaylistView {
        PlaylistView {
            id,
            name: fields.text("name"@, "Untitled Playlist"@),
            tracks: fields.ids("tracks"@),
            description: fields.text("description"@, ""@),
            system_created: fields.flag("system_created"@),
        }
    }
}

impl TagView {
    pub open spec fn decoded(id: u64, fields: FieldsView) -> TagView {
        TagView {
            id,
            name: fields.text("name"@, "Untitled Tag"@),
            archived: fields.flag("archived"@),
            tracks: fields.ids("tracks"@),
        }
    }
}

impl Default for Track {
    fn default() -> (res: Track)
        ensures
            res@ == (TrackView {
                id: 0,
                track: 0,
                year: 0,
                title: Seq::empty(),
                genre: Seq::empty(),
                length: 0,
                album_id: 0,
                artwork_id: 0,
                artist_id: 0,
                uploaded_on: Seq::empty(),
                trashed: false,
                size: 0,
                path: Seq::empty(),
                rating: 0,
                plays: 0,
                file: Seq::empty(),
                mime_type: Seq::empty(),
                replay_gain: Seq::empty(),
            }),
    {
        Track {
            id: 0,
            track: 0,
            year: 0,
            title: String::new(),
            genre: String::new(),
            length: 0,
            album_id: 0,
            artwork_id: 0,
            artist_id: 0,
            uploaded_on: String::new(),
            trashed: false,
            size: 0,
            path: String::new(),
            rating: 0,
            plays: 0,
            file: String::new(),
            mime_type: String::new(),
            replay_gain: String::new(),
        }
    }
}

impl Default for Album {
    fn default() -> (res: Album)
        ensures
            res@ == (AlbumView {
                id: 0,
                name: Seq::empty(),
                tracks: Seq::empty(),
                artist_id: 0,
                trashed: false,
                rating: 0,
                year: 0,
                disc: 0,
            }),
    {
        Album {
            id: 0,
            name: String::new(),
            tracks: Vec::new(),
            artist_id: 0,
            trashed: false,
            rating: 0,
            year: 0,
            disc: 0,
        }
    }
}

impl Default for Artist {
    fn default() -> (res: Artist)
        ensures
            res@ == (ArtistView {
                id: 0,
                name: Seq::empty(),
                tracks: Seq::empty(),
                trashed: false,
                rating: 0,
            }),
    {
        Artist {
            id: 0,
            name: String::new(),
            tracks: Vec::new(),
            trashed: false,
            rating: 0,
        }
    }
}

impl Default for Playlist {
    fn default() -> (res: Playlist)
        ensures
            res@ == (PlaylistView {
                id: 0,
                name: Seq::empty(),
                tracks: Seq::empty(),
                description: Seq::empty(),
                system_created: false,
            }),
    {
        Playlist {
            id: 0,
            name: String::new(),
            tracks: Vec::new(),
            description: String::new(),
            system_created: false,
        }
    }
}

impl Default for Tag {
    fn default() -> (res: Tag)
        ensures
            res@ == (TagView {
                id: 0,
                name: Seq::empty(),
                archived: false,
                tracks: Seq::empty(),
            }),
    {
        Tag {
            id: 0,
            name: String::new(),
            archived: false,
            tracks: Vec::new(),
        }
    }
}

impl Track {
    /// Reads a track from the fields of its entry.
    pub fn from_fields(id: u64, fields: &Fields<'_>) -> (res: Track)
        ensures
            res@ == TrackView::decoded(id, fields@),
    {
        Track {
            id,
            track: get_i64(fields, "track"),
            year: get_i64(fields, "year"),
            title: get_string(fields, "title", "Untitled"),
            genre: get_string(fields, "genre", ""),
            length: get_i64(fields, "length"),
            album_id: get_u64(fields, "album_id"),
            artwork_id: get_u64(fields, "artwork_id"),
            artist_id: get_u64(fields, "artist_id"),
            uploaded_on: get_string(fields, "uploaded_on", ""),
            trashed: get_bool(fields, "trashed"),
            size: get_u64(fields, "size"),
            path: get_string(fields, "path", ""),
            rating: get_i64(fields, "rating"),
            plays: get_i64(fields, "plays"),
            file: get_string(fields, "file", ""),
            mime_type: get_string(fields, "type", ""),
            replay_gain: get_string(fields, "replay_gain", ""),
        }
    }

    /// The length in minutes and seconds.
    pub open spec fn spec_duration_label(length: i64) -> Seq<char> {
        let seconds = if length > 0 {
            length as nat
        } else {
            0
        };
        decimal(seconds / 60) + ":"@ + decimal2(seconds % 60)
    }

    /// The length in minutes and seconds, such as `3:05`.
    pub fn duration_label(&self) -> (res: String)
        ensures
            res@ == Track::spec_duration_label(self.length),
    {
        let seconds: u64 = if self.length > 0 {
            self.length as u64
        } else {
            0
        };
        let mut text = String::new();
        push_decimal(&mut text, seconds / 60);
        text.append(":");
        push_decimal2(&mut text, seconds % 60);
        assert(text@ =~= Track::spec_duration_label(self.length));
        text
    }
}

impl Album {
    pub fn from_fields(id: u64, fields: &Fields<'_>) -> (res: Album)
        ensures
            res@ == AlbumView::decoded(id, fields@),
    {
        Album {
            id,
            name: get_string(fields, "name", "Unknown Album"),
            tracks: get_vec_u64(fields, "tracks"),
            artist_id: get_u64(fields, "artist_id"),
            trashed: get_bool(fields, "trashed"),
            rating: get_i64(fields, "rating"),
            year: get_i64(fields, "year"),
            disc: get_i64(fields, "disc"),
        }
    }
}

impl Artist {
    pub fn from_fields(id: u64, fields: &Fields<'_>) -> (res: Artist)
        ensures
            res@ == ArtistView::decoded(id, fields@),
    {
        Artist {
            id,
            name: get_string(fields, "name", "Unknown Artist"),
            tracks: get_vec_u64(fields, "tracks"),
            trashed: get_bool(fields, "trashed"),
            rating: get_i64(fields, "rating"),
        }
    }
}

impl Playlist {
    pub fn from_fields(id: u64, fields: &Fields<'_>) -> (res: Playlist)
        ensures
            res@ == PlaylistView::decoded(id, fields@),
    {
        Playlist {
            id,
            name: get_string(fields, "name", "Untitled Playlist"),
            tracks: get_vec_u64(fields, "tracks"),
            description: get_string(fields, "description", ""),
            system_created: get_bool(fields, "system_created"),
        }
    }
}

impl Tag {
    pub fn from_fields(id: u64, fields: &Fields<'_>) -> (res: Tag)
        ensures
            res@ == TagView::decoded(id, fields@),
    {
        Tag {
            id,
            name: get_string(fields, "name", "Untitled Tag"),
            archived: get_bool(fields, "archived"),
            tracks: get_vec_u64(fields, "tracks"),
        }
    }
}

/// The columns that a collection names under `map`.
pub open spec fn named_columns(entries: Seq<(Seq<char>, JsonView)>) -> Seq<(Seq<char>, JsonView)> {
    match first_field(entries, "map"@) {
        Some(JsonView::Object(columns)) => columns,
        _ => Seq::empty(),
    }
}

/// The rows among the entries of a collection: those named by an id that hold an array.
pub open spec fn rows_of(
    columns: Seq<(Seq<char>, JsonView)>,
    entries: Seq<(Seq<char>, JsonView)>,
) -> Seq<(u64, FieldsView)>
    decreases entries.len(),
{
    if entries.len() == 0 {
        Seq::empty()
    } else {
        let before = rows_of(columns, entries.drop_last());
        match (parsed_u64(entries.last().0), entries.last().1) {
            (Some(id), JsonView::Array(row)) => before.push((id, FieldsView::Row { columns, row })),
            _ => before,
        }
    }
}

/// The objects among the entries of a collection that names no columns.
pub open spec fn objects_of(entries: Seq<(Seq<char>, JsonView)>) -> Seq<(u64, FieldsView)>
    decreases entries.len(),
{
    if entries.len() == 0 {
        Seq::empty()
    } else {
        let before = objects_of(entries.drop_last());
        match (parsed_u64(entries.last().0), entries.last().1) {
            (Some(id), JsonView::Object(fields)) => before.push((id, FieldsView::Object(fields))),
            _ => before,
        }
    }
}

/// The rows of a collection; none where it is not an object.
pub open spec fn collection(value: Option<JsonView>) -> Seq<(u64, FieldsView)> {
    match value {
        Some(JsonView::Object(entries)) => rows_of(named_columns(entries), entries),
        _ => Seq::empty(),
    }
}

/// The tags, which are rows where columns are named and objects otherwise.
pub open spec fn tag_collection(value: Option<JsonView>) -> Seq<(u64, FieldsView)> {
    match value {
        Some(JsonView::Object(entries)) => if first_field(entries, "map"@) is Some {
            collection(value)
        } else {
            objects_of(entries)
        },
        _ => Seq::empty(),
    }
}

/// The last entry of each id.
pub open spec fn latest(rows: Seq<(u64, FieldsView)>) -> Map<u64, FieldsView>
    decreases rows.len(),
{
    if rows.len() == 0 {
        Map::empty()
    } else {
        latest(rows.drop_last()).insert(rows.last().0, rows.last().1)
    }
}

pub open spec fn entry_views(entries: Seq<(u64, Fields<'_>)>) -> Seq<(u64, FieldsView)> {
    Seq::new(entries.len(), |i: int| (entries[i].0, entries[i].1@))
}

/// Reads the rows of a collection.
pub fn decode_collection<'a>(value: Option<&'a Json>) -> (res: Vec<(u64, Fields<'a>)>)
    ensures
        entry_views(res@) == collection(referred(value)),
{
    let mut out: Vec<(u64, Fields<'a>)> = Vec::new();
    assert(entry_views(out@) =~= Seq::<(u64, FieldsView)>::empty());
    let json = match value {
        Some(json) => json,
        None => {
            return out;
        },
    };
    let entries = match json.as_object() {
        Some(entries) => entries,
        None => {
            return out;
        },
    };
    let columns: Option<&'a Vec<(String, Json)>> = match find_field(entries, "map") {
        Some(map) => map.as_object(),
        None => None,
    };
    let ghost all = fields_view(entries@);
    assert(columns_view(columns) == named_columns(all));
    let mut i: usize = 0;
    assert(all.take(0) =~= Seq::<(Seq<char>, JsonView)>::empty());
    while i < entries.len()
        invariant
            i <= entries@.len(),
            all == fields_view(entries@),
            columns_view(columns) == named_columns(all),
            entry_views(out@) == rows_of(named_columns(all), all.take(i as int)),
        decreases entries@.len() - i,
    {
        proof {
            assert(all.take(i + 1).drop_last() =~= all.take(i as int));
            assert(all.take(i + 1).last() == (entries@[i as int].0@, entries@[i as int].1@));
        }
        if let Some(id) = parse_u64_text(entries[i].0.as_str()) {
            if let Some(row) = entries[i].1.as_array() {
                let ghost held = entry_views(out@);
                let fields = Fields::Row { columns, row };
                out.push((id, fields));
                assert(entry_views(out@) =~= held.push((id, fields@)));
            }
        }
        i = i + 1;
    }
    assert(all.take(i as int) =~= all);
    out
}

/// Reads the tags.
pub fn decode_tags<'a>(value: Option<&'a Json>) -> (res: Vec<(u64, Fields<'a>)>)
    ensures
        entry_views(res@) == tag_collection(referred(value)),
{
    let mut out: Vec<(u64, Fields<'a>)> = Vec::new();
    assert(entry_views(out@) =~= Seq::<(u64, FieldsView)>::empty());
    let json = match value {
        Some(json) => json,
        None => {
            return out;
        },
    };
    let entries = match json.as_object() {
        Some(entries) => entries,
        None => {
            return out;
        },
    };
    if find_field(entries, "map").is_some() {
        return decode_collection(value);
    }
    let ghost all = fields_view(entries@);
    let mut i: usize = 0;
    assert(all.take(0) =~= Seq::<(Seq<char>, JsonView)>::empty());
    while i < entries.len()
        invariant
            i <= entries@.len(),
            all == fields_view(entries@),
            entry_views(out@) == objects_of(all.take(i as int)),
        decreases entries@.len() - i,
    {
        proof {
            assert(all.take(i + 1).drop_last() =~= all.take(i as int));
            assert(all.take(i + 1).last() == (entries@[i as int].0@, entries@[i as int].1@));
        }
        if let Some(id) = parse_u64_text(entries[i].0.as_str()) {
            if let Some(fields) = entries[i].1.as_object() {
                let ghost held = entry_views(out@);
                let fields = Fields::Object(fields);
                out.push((id, fields));
                assert(entry_views(out@) =~= held.push((id, fields@)));
            }
        }
        i = i + 1;
    }
    assert(all.take(i as int) =~= all);
    out
}

pub open spec fn decoded_tracks(rows: Seq<(u64, FieldsView)>) -> Map<u64, TrackView> {
    Map::new(
        |id: u64| latest(rows).dom().contains(id),
        |id: u64| TrackView::decoded(id, latest(rows)[id]),
    )
}

fn collect_tracks(rows: &Vec<(u64, Fields<'_>)>) -> (res: BTreeMap<u64, Track>)
    ensures
        viewed(res@) == decoded_tracks(entry_views(rows@)),
{
    let mut out: BTreeMap<u64, Track> = BTreeMap::new();
    let ghost all = entry_views(rows@);
    let mut i: usize = 0;
    assert(all.take(0) =~= Seq::<(u64, FieldsView)>::empty());
    assert(viewed(out@) =~= decoded_tracks(all.take(0)));
    while i < rows.len()
        invariant
            i <= rows@.len(),
            all == entry_views(rows@),
            viewed(out@) == decoded_tracks(all.take(i as int)),
        decreases rows@.len() - i,
    {
        let ghost before = out@;
        let id: u64 = rows[i].0;
        let entry = Track::from_fields(id, &rows[i].1);
        out.insert(id, entry);
        proof {
            assert(all.take(i + 1).drop_last() =~= all.take(i as int));
            assert(all.take(i + 1).last() == (id, rows@[i as int].1@));
            assert(out@ =~= before.insert(id, entry));
            assert(viewed(out@) =~= viewed(before).insert(id, entry@));
            assert(viewed(out@) =~= decoded_tracks(all.take(i + 1)));
        }
        i = i + 1;
    }
    assert(all.take(i as int) =~= all);
    out
}

pub open spec fn decoded_albums(rows: Seq<(u64, FieldsView)>) -> Map<u64, AlbumView> {
    Map::new(
        |id: u64| latest(rows).dom().contains(id),
        |id: u64| AlbumView::decoded(id, latest(rows)[id]),
    )
}

fn collect_albums(rows: &Vec<(u64, Fields<'_>)>) -> (res: BTreeMap<u64, Album>)
    ensures
        viewed(res@) == decoded_albums(entry_views(rows@)),
{
    let mut out: BTreeMap<u64, Album> = BTreeMap::new();
    let ghost all = entry_views(rows@);
    let mut i: usize = 0;
    assert(all.take(0) =~= Seq::<(u64, FieldsView)>::empty());
    assert(viewed(out@) =~= decoded_albums(all.take(0)));
    while i < rows.len()
        invariant
            i <= rows@.len(),
            all == entry_views(rows@),
            viewed(out@) == decoded_albums(all.take(i as int)),
        decreases rows@.len() - i,
    {
        let ghost before = out@;
        let id: u64 = rows[i].0;
        let entry = Album::from_fields(id, &rows[i].1);
        out.insert(id, entry);
        proof {
            assert(all.take(i + 1).drop_last() =~= all.take(i as int));
            assert(all.take(i + 1).last() == (id, rows@[i as int].1@));
            assert(out@ =~= before.insert(id, entry));
            assert(viewed(out@) =~= viewed(before).insert(id, entry@));
            assert(viewed(out@) =~= decoded_albums(all.take(i + 1)));
        }
        i = i + 1;
    }
    assert(all.take(i as int) =~= all);
    out
}

pub open spec fn decoded_artists(rows: Seq<(u64, FieldsView)>) -> Map<u64, ArtistView> {
    Map::new(
        |id: u64| latest(rows).dom().contains(id),
        |id: u64| ArtistView::decoded(id, latest(rows)[id]),
    )
}

fn collect_artists(rows: &Vec<(u64, Fields<'_>)>) -> (res: BTreeMap<u64, Artist>)
    ensures
        viewed(res@) == decoded_artists(entry_views(rows@)),
{
    let mut out: BTreeMap<u64, Artist> = BTreeMap::new();
    let ghost all = entry_views(rows@);
    let mut i: usize = 0;
    assert(all.take(0) =~= Seq::<(u64, FieldsView)>::empty());
    assert(viewed(out@) =~= decoded_artists(all.take(0)));
    while i < rows.len()
        invariant
            i <= rows@.len(),
            all == entry_views(rows@),
            viewed(out@) == decoded_artists(all.take(i as int)),
        decreases rows@.len() - i,
    {
        let ghost before = out@;
        let id: u64 = rows[i].0;
        let entry = Artist::from_fields(id, &rows[i].1);
        out.insert(id, entry);
        proof {
            assert(all.take(i + 1).drop_last() =~= all.take(i as int));
            assert(all.take(i + 1).last() == (id, rows@[i as int].1@));
            assert(out@ =~= before.insert(id, entry));
            assert(viewed(out@) =~= viewed(before).insert(id, entry@));
            assert(viewed(out@) =~= decoded_artists(all.take(i + 1)));
        }
        i = i + 1;
    }
    assert(all.take(i as int) =~= all);
    out
}

pub open spec fn decoded_playlists(rows: Seq<(u64, FieldsView)>) -> Map<u64, PlaylistView> {
    Map::new(
        |id: u64| latest(rows).dom().contains(id),
        |id: u64| PlaylistView::decoded(id, latest(rows)[id]),
    )
}

fn collect_playlists(rows: &Vec<(u64, Fields<'_>)>) -> (res: BTreeMap<u64, Playlist>)
    ensures
        viewed(res@) == decoded_playlists(entry_views(rows@)),
{
    let mut out: BTreeMap<u64, Playlist> = BTreeMap::new();
    let ghost all = entry_views(rows@);
    let mut i: usize = 0;
    assert(all.take(0) =~= Seq::<(u64, FieldsView)>::empty());
    assert(viewed(out@) =~= decoded_playlists(all.take(0)));
    while i < rows.len()
        invariant
            i <= rows@.len(),
            all == entry_views(rows@),
            viewed(out@) == decoded_playlists(all.take(i as int)),
        decreases rows@.len() - i,
    {
        let ghost before = out@;
        let id: u64 = rows[i].0;
        let entry = Playlist::from_fields(id, &rows[i].1);
        out.insert(id, entry);
        proof {
            assert(all.take(i + 1).drop_last() =~= all.take(i as int));
            assert(all.take(i + 1).last() == (id, rows@[i as int].1@));
            assert(out@ =~= before.insert(id, entry));
            assert(viewed(out@) =~= viewed(before).insert(id, entry@));
            assert(viewed(out@) =~= decoded_playlists(all.take(i + 1)));
        }
        i = i + 1;
    }
    assert(all.take(i as int) =~= all);
    out
}

pub open spec fn decoded_tags(rows: Seq<(u64, FieldsView)>) -> Map<u64, TagView> {
    Map::new(
        |id: u64| latest(rows).dom().contains(id),
        |id: u64| TagView::decoded(id, latest(rows)[id]),
    )
}

fn collect_tags(rows: &Vec<(u64, Fields<'_>)>) -> (res: BTreeMap<u64, Tag>)
    ensures
        viewed(res@) == decoded_tags(entry_views(rows@)),
{
    let mut out: BTreeMap<u64, Tag> = BTreeMap::new();
    let ghost all = entry_views(rows@);
    let mut i: usize = 0;
    assert(all.take(0) =~= Seq::<(u64, FieldsView)>::empty());
    assert(viewed(out@) =~= decoded_tags(all.take(0)));
    while i < rows.len()
        invariant
            i <= rows@.len(),
            all == entry_views(rows@),
            viewed(out@) == decoded_tags(all.take(i as int)),
        decreases rows@.len() - i,
    {
        let ghost before = out@;
        let id: u64 = rows[i].0;
        let entry = Tag::from_fields(id, &rows[i].1);
        out.insert(id, entry);
        proof {
            assert(all.take(i + 1).drop_last() =~= all.take(i as int));
            assert(all.take(i + 1).last() == (id, rows@[i as int].1@));
            assert(out@ =~= before.insert(id, entry));
            assert(viewed(out@) =~= viewed(before).insert(id, entry@));
            assert(viewed(out@) =~= decoded_tags(all.take(i + 1)));
        }
        i = i + 1;
    }
    assert(all.take(i as int) =~= all);
    out
}

pub broadcast proof fn lemma_take_all(ids: Seq<u64>)
    ensures
        #[trigger] ids.take(ids.len() as int) == ids,
{
    assert(ids.take(ids.len() as int) =~= ids);
}

impl LibraryView {
    /// The library that an object describes.
    pub open spec fn decoded(root: JsonView) -> LibraryView {
        LibraryView {
            tracks: decoded_tracks(collection(root.field("tracks"@))),
            albums: decoded_albums(collection(root.field("albums"@))),
            artists: decoded_artists(collection(root.field("artists"@))),
            playlists: decoded_playlists(collection(root.field("playlists"@))),
            tags: decoded_tags(tag_collection(root.field("tags"@))),
            status: root.field("status"@),
            expires: match root.field("expires"@) {
                Some(value) => signed_value(value),
                None => None,
            },
        }
    }

    /// Every track is stored under its own id.
    pub open spec fn wf(self) -> bool {
        forall|id: u64| #[trigger] self.tracks.dom().contains(id) ==> self.tracks[id].id == id
    }

    pub open spec fn artist_name(self, id: u64) -> Seq<char> {
        if self.artists.dom().contains(id) {
            self.artists[id].name
        } else {
            "Unknown Artist"@
        }
    }

    pub open spec fn album_name(self, id: u64) -> Seq<char> {
        if self.albums.dom().contains(id) {
            self.albums[id].name
        } else {
            "Unknown Album"@
        }
    }

    /// What the track with the given id is ordered by.
    pub open spec fn track_key(self, id: u64) -> TrackKeyView {
        let track = self.tracks[id];
        TrackKeyView {
            artist: self.artist_name(track.artist_id),
            album: self.album_name(track.album_id),
            number: track.track,
            title: track.title,
            id: track.id,
        }
    }

    /// The track is in the library and not in the trash.
    pub open spec fn listed(self, id: u64) -> bool {
        self.tracks.dom().contains(id) && !self.tracks[id].trashed
    }

    /// The text in which a search looks for its query: title, genre, path, artist and album, each
    /// in lower case, with spaces between them.
    pub open spec fn search_text(self, id: u64) -> Seq<char> {
        let track = self.tracks[id];
        lowercase(track.title) + " "@ + lowercase(track.genre) + " "@ + lowercase(track.path)
            + " "@ + lowercase(self.artist_name(track.artist_id)) + " "@ + lowercase(
            self.album_name(track.album_id),
        )
    }

    /// `ids` lists exactly the tracks that are wanted, each of them once, in order.
    pub open spec fn is_listing(self, ids: Seq<u64>, wanted: spec_fn(u64) -> bool) -> bool {
        &&& forall|id: u64| #[trigger] ids.contains(id) <==> wanted(id)
        &&& forall|i: int, j: int|
            0 <= i < j < ids.len() ==> listed_before(
                self.track_key(#[trigger] ids[i]),
                self.track_key(#[trigger] ids[j]),
            )
    }

    /// The tracks whose text in lower case holds a query.
    pub open spec fn found(self, query: Seq<char>) -> spec_fn(u64) -> bool {
        |id: u64| self.listed(id) && contains_text(self.search_text(id), query)
    }

    /// The tracks that a search for `text` finds: every listed track where the text is blank.
    pub open spec fn sought(self, text: Seq<char>) -> spec_fn(u64) -> bool {
        let query = trim(text, CharSet::WhiteSpace);
        if query.len() == 0 {
            |id: u64| self.listed(id)
        } else {
            self.found(lowercase(query))
        }
    }

    pub open spec fn label(self, id: u64) -> Seq<char> {
        if self.tracks.dom().contains(id) {
            self.artist_name(self.tracks[id].artist_id) + " - "@ + self.tracks[id].title
        } else {
            "Track "@ + decimal(id as nat)
        }
    }
}

impl Default for Library {
    fn default() -> (res: Library)
        ensures
            res@.tracks == Map::<u64, TrackView>::empty(),
            res@.albums == Map::<u64, AlbumView>::empty(),
            res@.artists == Map::<u64, ArtistView>::empty(),
            res@.playlists == Map::<u64, PlaylistView>::empty(),
            res@.tags == Map::<u64, TagView>::empty(),
            res@.status is None,
            res@.expires is None,
    {
        Library {
            tracks: BTreeMap::new(),
            albums: BTreeMap::new(),
            artists: BTreeMap::new(),
            playlists: BTreeMap::new(),
            tags: BTreeMap::new(),
            status: None,
            expires: None,
        }
    }
}

impl Library {
    /// Every track is stored under its own id.
    pub open spec fn wf(self) -> bool {
        self@.wf()
    }

    /// Reads the library that the server sent.
    pub fn from_value(value: &Json) -> (res: Result<Library>)
        ensures
            match res {
                Ok(library) => value@ is Object && library.wf() && library@
                    == LibraryView::decoded(value@),
                Err(error) => !(value@ is Object) && error is Library && error->Library_0@
                    == "library root is not an object"@,
            },
    {
        if value.as_object().is_none() {
            return Err(AppError::Library("library root is not an object".to_owned()));
        }
        let tracks = collect_tracks(&decode_collection(value.get("tracks")));
        let albums = collect_albums(&decode_collection(value.get("albums")));
        let artists = collect_artists(&decode_collection(value.get("artists")));
        let playlists = collect_playlists(&decode_collection(value.get("playlists")));
        let tags = collect_tags(&decode_tags(value.get("tags")));
        let status = match value.get("status") {
            Some(status) => Some(status.duplicate()),
            None => None,
        };
        let expires = match value.get("expires") {
            Some(expires) => value_to_i64(expires),
            None => None,
        };
        Ok(Library { tracks, albums, artists, playlists, tags, status, expires })
    }

    /// The name of an artist.
    pub fn artist_name(&self, artist_id: u64) -> (res: &str)
        ensures
            res@ == self@.artist_name(artist_id),
    {
        match self.artists.get(&artist_id) {
            Some(artist) => artist.name.as_str(),
            None => "Unknown Artist",
        }
    }

    /// The name of an album.
    pub fn album_name(&self, album_id: u64) -> (res: &str)
        ensures
            res@ == self@.album_name(album_id),
    {
        match self.albums.get(&album_id) {
            Some(album) => album.name.as_str(),
            None => "Unknown Album",
        }
    }

    /// The artist and the title of a track.
    pub fn track_label(&self, track_id: u64) -> (res: String)
        ensures
            res@ == self@.label(track_id),
    {
        match self.tracks.get(&track_id) {
            Some(track) => {
                let mut text = self.artist_name(track.artist_id).to_owned();
                text.append(" - ");
                text.append(track.title.as_str());
                text
            },
            None => {
                let mut text = "Track ".to_owned();
                push_decimal(&mut text, track_id);
                text
            },
        }
    }

    /// What a track is ordered by.
    fn track_key(&self, track: &Track) -> (res: TrackKey)
        ensures
            res@ == (TrackKeyView {
                artist: self@.artist_name(track.artist_id),
                album: self@.album_name(track.album_id),
                number: track.track,
                title: track.title@,
                id: track.id,
            }),
    {
        TrackKey {
            artist: chars_of(self.artist_name(track.artist_id)),
            album: chars_of(self.album_name(track.album_id)),
            number: track.track,
            title: chars_of(track.title.as_str()),
            id: track.id,
        }
    }

    /// The order of two tracks by artist, album, number and title. A track that is not in the
    /// library comes last.
    pub fn compare_tracks(&self, left: u64, right: u64) -> (res: Ordering)
        ensures
            !self@.tracks.dom().contains(left) ==> res is Greater,
            self@.tracks.dom().contains(left) && !self@.tracks.dom().contains(right) ==> res
                is Less,
            self@.tracks.dom().contains(left) && self@.tracks.dom().contains(right) ==> {
                let order = name_order(self@.track_key(left), self@.track_key(right));
                &&& res is Less <==> order < 0
                &&& res is Equal <==> order == 0
                &&& res is Greater <==> order > 0
            },
    {
        match self.tracks.get(&left) {
            None => Ordering::Greater,
            Some(left) => match self.tracks.get(&right) {
                None => Ordering::Less,
                Some(right) => {
                    let order = self.track_key(left).order_names(&self.track_key(right));
                    if order < 0 {
                        Ordering::Less
                    } else if order == 0 {
                        Ordering::Equal
                    } else {
                        Ordering::Greater
                    }
                },
            },
        }
    }

    /// The ids of the tracks that are not in the trash, in no particular order.
    fn listed_ids(&self) -> (res: Vec<u64>)
        ensures
            res@.no_duplicates(),
            forall|id: u64| #[trigger] res@.contains(id) <==> self@.listed(id),
    {
        broadcast use lemma_take_all;

        let mut out: Vec<u64> = Vec::new();
        for key in it: self.tracks.keys()
            invariant
                it.seq().no_duplicates(),
                it.seq().unref().to_set() == self.tracks@.dom(),
                out@.no_duplicates(),
                forall|id: u64| #[trigger]
                    out@.contains(id) <==> self@.listed(id) && it.seq().unref().take(
                        it.index(),
                    ).contains(id),
                it.seq().unref().take(it.seq().unref().len() as int).to_set() == self.tracks@.dom(),
        {
            let id: u64 = *key;
            let ghost all = it.seq().unref();
            let ghost before = out@;
            proof {
                assert(all[it.index()] == id);
                assert(all.to_set().contains(id));
                assert(self.tracks@.dom().contains(id));
                assert(all.take(it.index() + 1) =~= all.take(it.index()).push(id));
                assert(!all.take(it.index()).contains(id)) by {
                    if all.take(it.index()).contains(id) {
                        let k = choose|k: int|
                            0 <= k < it.index() && all.take(it.index())[k] == id;
                        assert(*it.seq()[k] == id);
                        assert(*it.seq()[it.index()] == id);
                        assert(it.seq()[k] == it.seq()[it.index()]);
                    }
                }
                assert(forall|x: u64| #[trigger]
                    all.take(it.index() + 1).contains(x) <==> all.take(it.index()).contains(x) || x
                        == id) by {
                    broadcast use vstd::seq_lib::group_seq_properties;

                }
            }
            if let Some(track) = self.tracks.get(&id) {
                if !track.trashed {
                    assert(!before.contains(id));
                    out.push(id);
                    proof {
                        broadcast use vstd::seq_lib::group_seq_properties;

                        assert(forall|x: u64| #[trigger]
                            out@.contains(x) <==> before.contains(x) || x == id);
                    }
                }
            }
        }
        out
    }

    /// The given tracks in order.
    fn sorted(&self, ids: &Vec<u64>) -> (res: Vec<u64>)
        requires
            self.wf(),
            ids@.no_duplicates(),
            forall|i: int| 0 <= i < ids@.len() ==> self@.tracks.dom().contains(#[trigger] ids@[i]),
        ensures
            self@.is_listing(res@, |id: u64| ids@.contains(id)),
    {
        let mut keys: Vec<TrackKey> = Vec::new();
        let mut i: usize = 0;
        while i < ids.len()
            invariant
                self.wf(),
                forall|k: int|
                    0 <= k < ids@.len() ==> self@.tracks.dom().contains(#[trigger] ids@[k]),
                i <= ids@.len(),
                keys@.len() == i,
                forall|k: int| 0 <= k < i ==> (#[trigger] keys@[k])@ == self@.track_key(ids@[k]),
            decreases ids@.len() - i,
        {
            let id: u64 = ids[i];
            assert(self@.tracks.dom().contains(ids@[i as int]));
            if let Some(track) = self.tracks.get(&id) {
                let key = self.track_key(track);
                assert(key@ == self@.track_key(id));
                keys.push(key);
            }
            i = i + 1;
        }
        proof {
            assert forall|k: int| 0 <= k < keys@.len() implies (#[trigger] keys@[k]).id
                == ids@[k] by {
                assert(keys@[k]@ == self@.track_key(ids@[k]));
                assert(self@.tracks.dom().contains(ids@[k]));
            }
            assert(distinct_ids(keys@));
        }
        let positions = sorted_positions(&keys, 0, keys.len());
        let mut out: Vec<u64> = Vec::new();
        let mut j: usize = 0;
        while j < positions.len()
            invariant
                in_order(keys@, positions@),
                keys@.len() == ids@.len(),
                forall|k: int| 0 <= k < keys@.len() ==> (#[trigger] keys@[k]).id == ids@[k],
                j <= positions@.len(),
                out@.len() == j,
                forall|k: int| 0 <= k < j ==> (#[trigger] out@[k]) == ids@[positions@[k] as int],
            decreases positions@.len() - j,
        {
            assert(positions@[j as int] < keys@.len());
            out.push(keys[positions[j]].id);
            j = j + 1;
        }
        proof {
            assert forall|a: int, b: int| 0 <= a < b < out@.len() implies listed_before(
                self@.track_key(#[trigger] out@[a]),
                self@.track_key(#[trigger] out@[b]),
            ) by {
                assert(positions@[a] < keys@.len() && positions@[b] < keys@.len());
                assert(keys@[positions@[a] as int]@ == self@.track_key(out@[a]));
                assert(keys@[positions@[b] as int]@ == self@.track_key(out@[b]));
            }
            assert forall|id: u64| #[trigger] out@.contains(id) <==> ids@.contains(id) by {
                if out@.contains(id) {
                    let k = choose|k: int| 0 <= k < out@.len() && out@[k] == id;
                    assert(positions@[k] < keys@.len());
                    assert(ids@[positions@[k] as int] == id);
                }
                if ids@.contains(id) {
                    let k = choose|k: int| 0 <= k < ids@.len() && ids@[k] == id;
                    let p = k as usize;
                    assert(positions@.contains(p));
                    let m = choose|m: int| 0 <= m < positions@.len() && positions@[m] == p;
                    assert(out@[m] == id);
                }
            }
        }
        out
    }

    /// The tracks that are not in the trash, ordered by artist, album, number and title; tracks
    /// that agree in all of these come in the order of their ids.
    pub fn sorted_track_ids(&self) -> (res: Vec<u64>)
        requires
            self.wf(),
        ensures
            self@.is_listing(res@, |id: u64| self@.listed(id)),
    {
        let ids = self.listed_ids();
        proof {
            assert forall|i: int| 0 <= i < ids@.len() implies self@.tracks.dom().contains(
                #[trigger] ids@[i],
            ) by {
                assert(ids@.contains(ids@[i]));
            }
        }
        let res = self.sorted(&ids);
        proof {
            assert forall|id: u64| #[trigger] res@.contains(id) <==> self@.listed(id) by {
                assert(res@.contains(id) <==> (|id: u64| ids@.contains(id))(id));
            }
        }
        res
    }

    /// The text of a track, in lower case, in which a search looks for its query. A space neither
    /// has a case nor joins words, so the parts can be lowered one by one.
    fn search_text(&self, track: &Track) -> (res: String)
        requires
            self.wf(),
            self@.tracks.dom().contains(track.id),
            self@.tracks[track.id] == track@,
        ensures
            res@ == self@.search_text(track.id),
    {
        let mut text = to_lowercase(track.title.as_str());
        text.append(" ");
        text.append(to_lowercase(track.genre.as_str()).as_str());
        text.append(" ");
        text.append(to_lowercase(track.path.as_str()).as_str());
        text.append(" ");
        text.append(to_lowercase(self.artist_name(track.artist_id)).as_str());
        text.append(" ");
        text.append(to_lowercase(self.album_name(track.album_id)).as_str());
        text
    }

    /// The tracks whose text, given in lower case beside each id, holds the query, in order.
    pub fn select_track_ids(&self, query: &str, texts: &Vec<(u64, String)>) -> (res: Vec<u64>)
        requires
            self.wf(),
            forall|i: int|
                0 <= i < texts@.len() ==> self@.tracks.dom().contains((#[trigger] texts@[i]).0),
            forall|i: int, j: int|
                0 <= i < j < texts@.len() ==> (#[trigger] texts@[i]).0 != (#[trigger] texts@[j]).0,
        ensures
            self@.is_listing(
                res@,
                |id: u64|
                    exists|i: int|
                        0 <= i < texts@.len() && (#[trigger] texts@[i]).0 == id && contains_text(
                            texts@[i].1@,
                            query@,
                        ),
            ),
    {
        let mut ids: Vec<u64> = Vec::new();
        let mut i: usize = 0;
        let ghost wanted = |id: u64|
            exists|i: int|
                0 <= i < texts@.len() && (#[trigger] texts@[i]).0 == id && contains_text(
                    texts@[i].1@,
                    query@,
                );
        while i < texts.len()
            invariant
                forall|a: int, b: int|
                    0 <= a < b < texts@.len() ==> (#[trigger] texts@[a]).0
                        != (#[trigger] texts@[b]).0,
                i <= texts@.len(),
                ids@.no_duplicates(),
                forall|id: u64| #[trigger]
                    ids@.contains(id) <==> exists|k: int|
                        0 <= k < i && (#[trigger] texts@[k]).0 == id && contains_text(
                            texts@[k].1@,
                            query@,
                        ),
            decreases texts@.len() - i,
        {
            let ghost before = ids@;
            let id: u64 = texts[i].0;
            proof {
                assert(!before.contains(id)) by {
                    if before.contains(id) {
                        let k = choose|k: int|
                            0 <= k < i && (#[trigger] texts@[k]).0 == id && contains_text(
                                texts@[k].1@,
                                query@,
                            );
                        assert(texts@[k].0 != texts@[i as int].0);
                    }
                }
            }
            if contains_str(texts[i].1.as_str(), query) {
                ids.push(id);
                proof {
                    broadcast use vstd::seq_lib::group_seq_properties;

                    assert(forall|x: u64| #[trigger]
                        ids@.contains(x) <==> before.contains(x) || x == id);
                }
            }
            i = i + 1;
            proof {
                assert forall|x: u64| #[trigger] ids@.contains(x) <==> exists|k: int|
                    0 <= k < i && (#[trigger] texts@[k]).0 == x && contains_text(
                        texts@[k].1@,
                        query@,
                    ) by {
                    if ids@.contains(x) {
                        if before.contains(x) {
                            let k = choose|k: int|
                                0 <= k < i - 1 && (#[trigger] texts@[k]).0 == x && contains_text(
                                    texts@[k].1@,
                                    query@,
                                );
                            assert(texts@[k].0 == x);
                        } else {
                            assert(texts@[i - 1].0 == x);
                        }
                    }
                    if exists|k: int|
                        0 <= k < i && (#[trigger] texts@[k]).0 == x && contains_text(
                            texts@[k].1@,
                            query@,
                        ) {
                        let k = choose|k: int|
                            0 <= k < i && (#[trigger] texts@[k]).0 == x && contains_text(
                                texts@[k].1@,
                                query@,
                            );
                        if k < i - 1 {
                            assert(before.contains(x));
                        }
                    }
                }
            }
        }
        proof {
            assert forall|k: int| 0 <= k < ids@.len() implies self@.tracks.dom().contains(
                #[trigger] ids@[k],
            ) by {
                assert(ids@.contains(ids@[k]));
                let m = choose|m: int|
                    0 <= m < i && (#[trigger] texts@[m]).0 == ids@[k] && contains_text(
                        texts@[m].1@,
                        query@,
                    );
                assert(self@.tracks.dom().contains(texts@[m].0));
            }
        }
        let res = self.sorted(&ids);
        proof {
            assert forall|id: u64| #[trigger] res@.contains(id) <==> wanted(id) by {
                assert(res@.contains(id) <==> (|id: u64| ids@.contains(id))(id));
            }
        }
        res
    }

    /// The tracks whose title, genre, path, artist or album hold the query, in order and without
    /// regard to letter case. A blank query finds every track that is not in the trash.
    pub fn search_track_ids(&self, query: &str) -> (res: Vec<u64>)
        requires
            self.wf(),
        ensures
            self@.is_listing(res@, self@.sought(query@)),
            trim(query@, CharSet::WhiteSpace).len() == 0 ==> self@.is_listing(
                res@,
                |id: u64| self@.listed(id),
            ),
    {
        let text = trimmed(query);
        if text.is_empty() {
            return self.sorted_track_ids();
        }
        let query = to_lowercase(text);
        let ghost found = self@.found(query@);
        let ids = self.listed_ids();
        let mut texts: Vec<(u64, String)> = Vec::new();
        let mut i: usize = 0;
        while i < ids.len()
            invariant
                self.wf(),
                forall|id: u64| #[trigger] ids@.contains(id) <==> self@.listed(id),
                i <= ids@.len(),
                texts@.len() == i,
                forall|k: int|
                    0 <= k < i ==> (#[trigger] texts@[k]).0 == ids@[k] && texts@[k].1@
                        == self@.search_text(ids@[k]),
            decreases ids@.len() - i,
        {
            let id: u64 = ids[i];
            assert(ids@.contains(ids@[i as int]));
            if let Some(track) = self.tracks.get(&id) {
                assert(self@.tracks[id] == track@);
                texts.push((id, self.search_text(track)));
            }
            i = i + 1;
        }
        proof {
            assert forall|k: int| 0 <= k < texts@.len() implies self@.tracks.dom().contains(
                (#[trigger] texts@[k]).0,
            ) by {
                assert(ids@.contains(ids@[k]));
            }
        }
        let res = self.select_track_ids(query.as_str(), &texts);
        proof {
            let wanted = |id: u64|
                exists|i: int|
                    0 <= i < texts@.len() && (#[trigger] texts@[i]).0 == id && contains_text(
                        texts@[i].1@,
                        query@,
                    );
            assert forall|id: u64| #[trigger] res@.contains(id) <==> found(id) by {
                assert(res@.contains(id) <==> wanted(id));
                if wanted(id) {
                    let k = choose|k: int|
                        0 <= k < texts@.len() && (#[trigger] texts@[k]).0 == id && contains_text(
                            texts@[k].1@,
                            query@,
                        );
                    assert(ids@.contains(ids@[k]));
                }
                if found(id) {
                    assert(ids@.contains(id));
                    let k = choose|k: int| 0 <= k < ids@.len() && ids@[k] == id;
                    assert(texts@[k].0 == id);
                }
            }
        }
        res
    }
}

/// A listing is unique: what is listed, and the order, leave no choice.
pub proof fn law_listing_is_unique(
    library: LibraryView,
    wanted: spec_fn(u64) -> bool,
    first: Seq<u64>,
    second: Seq<u64>,
)
    requires
        library.is_listing(first, wanted),
        library.is_listing(second, wanted),
    ensures
        first == second,
    decreases first.len(),
{
    lemma_listing_distinct(library, wanted, first);
    lemma_listing_distinct(library, wanted, second);
    if first.len() == 0 {
        if second.len() > 0 {
            assert(second.contains(second[0]));
            assert(first.contains(second[0]));
        }
        assert(first =~= second);
    } else {
        assert(first.contains(first[0]));
        assert(second.contains(first[0]));
        assert(second.contains(second[0]));
        assert(first.contains(second[0]));
        let a = choose|k: int| 0 <= k < second.len() && second[k] == first[0];
        let b = choose|k: int| 0 <= k < first.len() && first[k] == second[0];
        if a > 0 && b > 0 {
            // each of the two would be listed before the other
            assert(listed_before(library.track_key(second[0]), library.track_key(second[a])));
            assert(listed_before(library.track_key(first[0]), library.track_key(first[b])));
            lemma_listing_asymmetric(
                library.track_key(first[0]),
                library.track_key(second[0]),
            );
        }
        assert(first[0] == second[0]);
        let head = first[0];
        let rest = |id: u64| wanted(id) && id != head;
        lemma_listing_tail(library, wanted, first);
        lemma_listing_tail(library, wanted, second);
        law_listing_is_unique(library, rest, first.drop_first(), second.drop_first());
        assert(first =~= seq![head] + first.drop_first());
        assert(second =~= seq![head] + second.drop_first());
    }
}

/// Two tracks are not each listed before the other.
proof fn lemma_listing_asymmetric(a: TrackKeyView, b: TrackKeyView)
    ensures
        !(listed_before(a, b) && listed_before(b, a)),
{
    if listed_before(a, b) && listed_before(b, a) {
        crate::sorting::law_listing_is_transitive(a, b, a);
    }
    crate::sorting::law_text_order_is_total(a.artist, a.artist);
    crate::sorting::law_text_order_is_total(a.album, a.album);
    crate::sorting::law_text_order_is_total(a.title, a.title);
}

/// No track is listed twice.
proof fn lemma_listing_distinct(
    library: LibraryView,
    wanted: spec_fn(u64) -> bool,
    ids: Seq<u64>,
)
    requires
        library.is_listing(ids, wanted),
    ensures
        ids.no_duplicates(),
{
    assert forall|i: int, j: int| 0 <= i < j < ids.len() implies ids[i] != ids[j] by {
        assert(listed_before(library.track_key(ids[i]), library.track_key(ids[j])));
        if ids[i] == ids[j] {
            lemma_listing_asymmetric(library.track_key(ids[i]), library.track_key(ids[j]));
        }
    }
}

/// What follows the first track lists the other tracks.
proof fn lemma_listing_tail(library: LibraryView, wanted: spec_fn(u64) -> bool, ids: Seq<u64>)
    requires
        library.is_listing(ids, wanted),
        ids.no_duplicates(),
        ids.len() > 0,
    ensures
        library.is_listing(ids.drop_first(), |id: u64| wanted(id) && id != ids[0]),
{
    let rest = ids.drop_first();
    let others = |id: u64| wanted(id) && id != ids[0];
    assert forall|id: u64| #[trigger] rest.contains(id) <==> others(id) by {
        if rest.contains(id) {
            let k = choose|k: int| 0 <= k < rest.len() && rest[k] == id;
            assert(ids[k + 1] == id);
            assert(ids.contains(id));
        }
        if others(id) {
            assert(ids.contains(id));
            let k = choose|k: int| 0 <= k < ids.len() && ids[k] == id;
            assert(rest[k - 1] == id);
        }
    }
    assert forall|i: int, j: int| 0 <= i < j < rest.len() implies listed_before(
        library.track_key(#[trigger] rest[i]),
        library.track_key(#[trigger] rest[j]),
    ) by {
        assert(rest[i] == ids[i + 1] && rest[j] == ids[j + 1]);
    }
}

/// A search finds no track that a blank search does not find.
pub proof fn law_search_narrows(
    library: LibraryView,
    query: Seq<char>,
    blank: Seq<char>,
    id: u64,
)
    requires
        library.sought(query)(id),
        trim(blank, CharSet::WhiteSpace).len() == 0,
    ensures
        library.sought(blank)(id),
{
}

/// A library that was read stores every track, album, artist, playlist and tag under its own id.
pub proof fn law_decoded_ids(root: JsonView, id: u64)
    ensures
        LibraryView::decoded(root).wf(),
        LibraryView::decoded(root).albums.dom().contains(id) ==> LibraryView::decoded(
            root,
        ).albums[id].id == id,
        LibraryView::decoded(root).artists.dom().contains(id) ==> LibraryView::decoded(
            root,
        ).artists[id].id == id,
        LibraryView::decoded(root).playlists.dom().contains(id) ==> LibraryView::decoded(
            root,
        ).playlists[id].id == id,
        LibraryView::decoded(root).tags.dom().contains(id) ==> LibraryView::decoded(
            root,
        ).tags[id].id == id,
{
}

} // verus!
