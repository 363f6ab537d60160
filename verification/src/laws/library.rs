//! What a library holds that was read from the server's reply, what is listed, and what is found.

use vstd::prelude::*;

use crate::json::{first_field, signed_value, unsigned_value, JsonView};
use crate::library::{
    collection, decoded_albums, decoded_artists, decoded_playlists, decoded_tags,
    decoded_tracks, heading, latest, named_columns, objects_of, row_field, rows_of,
    tag_collection, unsigned_values, AlbumView, ArtistView, FieldsView, LibraryView,
    PlaylistView, TagView, Track, TrackView,
};
use crate::sorting::{law_text_order_is_total, text_order};
use crate::text::{
    contains_text, decimal, digit, lowercase, occurs_at, parsed_i64, parsed_u64, trim, CharSet,
};

verus! {

/// The first of the fields with this name holds this value.
pub open spec fn first_is(
    fields: Seq<(Seq<char>, JsonView)>,
    name: Seq<char>,
    value: JsonView,
) -> bool {
    exists|k: int|
        0 <= k < fields.len() && #[trigger] fields[k] == (name, value) && forall|j: int|
            0 <= j < k ==> (#[trigger] fields[j]).0 != name
}

/// None of the fields has this name.
pub open spec fn lacks(fields: Seq<(Seq<char>, JsonView)>, name: Seq<char>) -> bool {
    forall|k: int| 0 <= k < fields.len() ==> (#[trigger] fields[k]).0 != name
}

/// The value is the number, or a text that spells it.
pub open spec fn stands_for(value: JsonView, n: u64) -> bool {
    match value {
        JsonView::Number { unsigned, .. } => unsigned == Some(n),
        JsonView::Text(text) => parsed_u64(text) == Some(n),
        _ => false,
    }
}

/// The value stands for some number.
pub open spec fn spells_number(value: JsonView) -> bool {
    exists|n: u64| #[trigger] stands_for(value, n)
}

/// The map gives column `c` to the field of this name, to no other, and no other column to it.
pub open spec fn heads_column(
    columns: Seq<(Seq<char>, JsonView)>,
    name: Seq<char>,
    c: u64,
) -> bool {
    exists|k: int|
        0 <= k < columns.len() && (#[trigger] columns[k]).0 == name && stands_for(columns[k].1, c)
            && forall|j: int|
            0 <= j < columns.len() && j != k ==> (#[trigger] columns[j]).0 != name && !stands_for(
                columns[j].1,
                c,
            )
}

/// The row holds this value in the column that the map gives to the field of this name.
pub open spec fn cell_is(
    columns: Seq<(Seq<char>, JsonView)>,
    row: Seq<JsonView>,
    name: Seq<char>,
    value: JsonView,
) -> bool {
    exists|c: u64|
        #[trigger] heads_column(columns, name, c) && c < row.len() && row[c as int] == value
}

/// The entry holds this value under this name.
pub open spec fn given(entry: FieldsView, name: Seq<char>, value: JsonView) -> bool {
    match entry {
        FieldsView::Row { columns, row } => cell_is(columns, row, name, value),
        FieldsView::Object(fields) => first_is(fields, name, value),
    }
}

/// The entry holds nothing under this name.
pub open spec fn missing(entry: FieldsView, name: Seq<char>) -> bool {
    match entry {
        FieldsView::Row { columns, .. } => lacks(columns, name),
        FieldsView::Object(fields) => lacks(fields, name),
    }
}

/// A text is taken as it is, a number as it is written, and the default where there is nothing.
pub open spec fn is_text(
    entry: FieldsView,
    name: Seq<char>,
    default: Seq<char>,
    got: Seq<char>,
) -> bool {
    &&& forall|text: Seq<char>| #[trigger] given(entry, name, JsonView::Text(text)) ==> got == text
    &&& forall|unsigned: Option<u64>, signed: Option<i64>, text: Seq<char>| #[trigger]
        given(entry, name, JsonView::Number { unsigned, signed, text }) ==> got == text
    &&& given(entry, name, JsonView::Null) ==> got == default
    &&& missing(entry, name) ==> got == default
}

/// A number is taken as it is, or as a text spells it; nothing is zero.
pub open spec fn is_unsigned(entry: FieldsView, name: Seq<char>, got: u64) -> bool {
    &&& forall|n: u64, signed: Option<i64>, text: Seq<char>| #[trigger]
        given(entry, name, JsonView::Number { unsigned: Some(n), signed, text }) ==> got == n
    &&& forall|text: Seq<char>| #[trigger]
        given(entry, name, JsonView::Text(text)) ==> Some(got) == (match parsed_u64(text) {
            Some(n) => Some(n),
            None => Some(0),
        })
    &&& given(entry, name, JsonView::Null) ==> got == 0
    &&& missing(entry, name) ==> got == 0
}

pub open spec fn is_signed(entry: FieldsView, name: Seq<char>, got: i64) -> bool {
    &&& forall|unsigned: Option<u64>, n: i64, text: Seq<char>| #[trigger]
        given(entry, name, JsonView::Number { unsigned, signed: Some(n), text }) ==> got == n
    &&& forall|text: Seq<char>| #[trigger]
        given(entry, name, JsonView::Text(text)) ==> Some(got) == (match parsed_i64(text) {
            Some(n) => Some(n),
            None => Some(0),
        })
    &&& given(entry, name, JsonView::Null) ==> got == 0
    &&& missing(entry, name) ==> got == 0
}

/// A flag is set where it is given as true, and only there.
pub open spec fn is_flag(entry: FieldsView, name: Seq<char>, got: bool) -> bool {
    &&& given(entry, name, JsonView::Bool(true)) ==> got
    &&& forall|value: JsonView| #[trigger]
        given(entry, name, value) && value != JsonView::Bool(true) ==> !got
    &&& missing(entry, name) ==> !got
}

/// Numbers in a list are taken in their order; nothing is an empty list.
pub open spec fn is_list(entry: FieldsView, name: Seq<char>, got: Seq<u64>) -> bool {
    &&& forall|items: Seq<JsonView>| #[trigger]
        given(entry, name, JsonView::Array(items)) && (forall|i: int|
            0 <= i < items.len() ==> spells_number(#[trigger] items[i])) ==> got.len()
            == items.len() && forall|i: int|
            0 <= i < items.len() ==> stands_for(items[i], #[trigger] got[i])
    &&& given(entry, name, JsonView::Null) ==> got.len() == 0
    &&& missing(entry, name) ==> got.len() == 0
}

pub(crate) proof fn lemma_first_is(
    fields: Seq<(Seq<char>, JsonView)>,
    name: Seq<char>,
    value: JsonView,
)
    requires
        first_is(fields, name, value),
    ensures
        first_field(fields, name) == Some(value),
    decreases fields.len(),
{
    let k = choose|k: int|
        0 <= k < fields.len() && #[trigger] fields[k] == (name, value) && forall|j: int|
            0 <= j < k ==> (#[trigger] fields[j]).0 != name;
    if k > 0 {
        let rest = fields.drop_first();
        assert(fields[0].0 != name);
        assert(rest[k - 1] == (name, value));
        assert forall|j: int| 0 <= j < k - 1 implies (#[trigger] rest[j]).0 != name by {
            assert(rest[j] == fields[j + 1]);
        }
        lemma_first_is(rest, name, value);
    }
}

pub(crate) proof fn lemma_lacks(fields: Seq<(Seq<char>, JsonView)>, name: Seq<char>)
    requires
        lacks(fields, name),
    ensures
        first_field(fields, name) is None,
    decreases fields.len(),
{
    if fields.len() > 0 {
        let rest = fields.drop_first();
        assert(fields[0].0 != name);
        assert forall|j: int| 0 <= j < rest.len() implies (#[trigger] rest[j]).0 != name by {
            assert(rest[j] == fields[j + 1]);
        }
        lemma_lacks(rest, name);
    }
}

/// The field that heads a column is named so by the map.
proof fn lemma_heading_named(columns: Seq<(Seq<char>, JsonView)>, c: int)
    requires
        heading(columns, c) is Some,
        0 <= c,
    ensures
        exists|k: int|
            0 <= k < columns.len() && (#[trigger] columns[k]).0 == heading(columns, c)->0 && (
            exists|n: u64| n == c && #[trigger] stands_for(columns[k].1, n)),
    decreases columns.len(),
{
    let last = columns.len() - 1;
    match unsigned_value(columns.last().1) {
        Some(column) if column == c => {
            assert(stands_for(columns[last].1, column));
            assert(columns[last].0 == heading(columns, c)->0);
        },
        _ => {
            let before = columns.drop_last();
            lemma_heading_named(before, c);
            let k = choose|k: int|
                0 <= k < before.len() && (#[trigger] before[k]).0 == heading(before, c)->0 && (
                exists|n: u64| n == c && #[trigger] stands_for(before[k].1, n));
            assert(columns[k] == before[k]);
        },
    }
}

/// A column that the map gives to one field alone is headed by it.
proof fn lemma_heading(columns: Seq<(Seq<char>, JsonView)>, k: int, c: u64)
    requires
        0 <= k < columns.len(),
        stands_for(columns[k].1, c),
        forall|j: int|
            0 <= j < columns.len() && j != k ==> !stands_for((#[trigger] columns[j]).1, c),
    ensures
        heading(columns, c as int) == Some(columns[k].0),
    decreases columns.len(),
{
    let last = columns.len() - 1;
    if k < last {
        let before = columns.drop_last();
        assert(!stands_for(columns[last].1, c));
        assert(before[k] == columns[k]);
        assert forall|j: int| 0 <= j < before.len() && j != k implies !stands_for(
            (#[trigger] before[j]).1,
            c,
        ) by {
            assert(before[j] == columns[j]);
        }
        lemma_heading(before, k, c);
    }
}

proof fn lemma_cell(
    columns: Seq<(Seq<char>, JsonView)>,
    row: Seq<JsonView>,
    name: Seq<char>,
    c: u64,
)
    requires
        heads_column(columns, name, c),
        c < row.len(),
    ensures
        row_field(columns, row, name) == Some(row[c as int]),
    decreases row.len(),
{
    let k = choose|k: int|
        0 <= k < columns.len() && (#[trigger] columns[k]).0 == name && stands_for(columns[k].1, c)
            && forall|j: int|
            0 <= j < columns.len() && j != k ==> (#[trigger] columns[j]).0 != name && !stands_for(
                columns[j].1,
                c,
            );
    lemma_heading(columns, k, c);
    let last = row.len() - 1;
    if c < last {
        if heading(columns, last) == Some(name) {
            lemma_heading_named(columns, last);
            let j = choose|j: int|
                0 <= j < columns.len() && (#[trigger] columns[j]).0 == name && (exists|n: u64|
                    n == last && #[trigger] stands_for(columns[j].1, n));
            assert(j == k);
            let n = choose|n: u64| n == last && #[trigger] stands_for(columns[j].1, n);
            assert(n == c);
        }
        lemma_cell(columns, row.drop_last(), name, c);
    }
}

proof fn lemma_no_cell(columns: Seq<(Seq<char>, JsonView)>, row: Seq<JsonView>, name: Seq<char>)
    requires
        lacks(columns, name),
    ensures
        row_field(columns, row, name) is None,
    decreases row.len(),
{
    if row.len() > 0 {
        let last = row.len() - 1;
        if heading(columns, last) == Some(name) {
            lemma_heading_named(columns, last);
        }
        lemma_no_cell(columns, row.drop_last(), name);
    }
}

proof fn lemma_field(entry: FieldsView, name: Seq<char>)
    ensures
        forall|value: JsonView| #[trigger]
            given(entry, name, value) ==> entry.field(name) == Some(value),
        missing(entry, name) ==> entry.field(name) is None,
{
    assert forall|value: JsonView| #[trigger] given(entry, name, value) implies entry.field(name)
        == Some(value) by {
        match entry {
            FieldsView::Row { columns, row } => {
                let c = choose|c: u64| #[trigger]
                    heads_column(columns, name, c) && c < row.len() && row[c as int] == value;
                lemma_cell(columns, row, name, c);
            },
            FieldsView::Object(fields) => {
                lemma_first_is(fields, name, value);
            },
        }
    }
    if missing(entry, name) {
        match entry {
            FieldsView::Row { columns, row } => {
                lemma_no_cell(columns, row, name);
            },
            FieldsView::Object(fields) => {
                lemma_lacks(fields, name);
            },
        }
    }
}

proof fn lemma_list(items: Seq<JsonView>)
    requires
        forall|i: int| 0 <= i < items.len() ==> spells_number(#[trigger] items[i]),
    ensures
        unsigned_values(items).len() == items.len(),
        forall|i: int|
            0 <= i < items.len() ==> stands_for(items[i], #[trigger] unsigned_values(items)[i]),
    decreases items.len(),
{
    if items.len() > 0 {
        let before = items.drop_last();
        let last = items.len() - 1;
        assert forall|i: int| 0 <= i < before.len() implies spells_number(#[trigger] before[i]) by {
            assert(before[i] == items[i]);
        }
        lemma_list(before);
        assert(spells_number(items[last]));
        let n = choose|n: u64| #[trigger] stands_for(items[last], n);
        let all = unsigned_values(items);
        assert(all == unsigned_values(before).push(n));
        assert forall|i: int| 0 <= i < items.len() implies stands_for(
            items[i],
            #[trigger] all[i],
        ) by {
            if i < last {
                assert(all[i] == unsigned_values(before)[i]);
                assert(before[i] == items[i]);
            }
        }
    }
}

/// What the readers of single fields give.
proof fn lemma_read(entry: FieldsView, name: Seq<char>, default: Seq<char>)
    ensures
        is_text(entry, name, default, entry.text(name, default)),
        is_unsigned(entry, name, entry.unsigned(name)),
        is_signed(entry, name, entry.signed(name)),
        is_flag(entry, name, entry.flag(name)),
        is_list(entry, name, entry.ids(name)),
{
    lemma_field(entry, name);
    let got = entry.ids(name);
    assert forall|items: Seq<JsonView>| #[trigger]
        given(entry, name, JsonView::Array(items)) && (forall|i: int|
            0 <= i < items.len() ==> spells_number(#[trigger] items[i])) implies got.len()
            == items.len() && forall|i: int|
        0 <= i < items.len() ==> stands_for(items[i], #[trigger] got[i]) by {
        lemma_list(items);
    }
}

/// Each field of a track is what its entry holds under the field's own name.
pub proof fn law_tracks_are_read_field_by_field(id: u64, entry: FieldsView)
    ensures
        ({
            let track = TrackView::decoded(id, entry);
            &&& track.id == id
            &&& is_signed(entry, "track"@, track.track)
            &&& is_signed(entry, "year"@, track.year)
            &&& is_text(entry, "title"@, "Untitled"@, track.title)
            &&& is_text(entry, "genre"@, ""@, track.genre)
            &&& is_signed(entry, "length"@, track.length)
            &&& is_unsigned(entry, "album_id"@, track.album_id)
            &&& is_unsigned(entry, "artwork_id"@, track.artwork_id)
            &&& is_unsigned(entry, "artist_id"@, track.artist_id)
            &&& is_text(entry, "uploaded_on"@, ""@, track.uploaded_on)
            &&& is_flag(entry, "trashed"@, track.trashed)
            &&& is_unsigned(entry, "size"@, track.size)
            &&& is_text(entry, "path"@, ""@, track.path)
            &&& is_signed(entry, "rating"@, track.rating)
            &&& is_signed(entry, "plays"@, track.plays)
            &&& is_text(entry, "file"@, ""@, track.file)
            &&& is_text(entry, "type"@, ""@, track.mime_type)
            &&& is_text(entry, "replay_gain"@, ""@, track.replay_gain)
        }),
{
    lemma_read(entry, "track"@, ""@);
    lemma_read(entry, "year"@, ""@);
    lemma_read(entry, "title"@, "Untitled"@);
    lemma_read(entry, "genre"@, ""@);
    lemma_read(entry, "length"@, ""@);
    lemma_read(entry, "album_id"@, ""@);
    lemma_read(entry, "artwork_id"@, ""@);
    lemma_read(entry, "artist_id"@, ""@);
    lemma_read(entry, "uploaded_on"@, ""@);
    lemma_read(entry, "trashed"@, ""@);
    lemma_read(entry, "size"@, ""@);
    lemma_read(entry, "path"@, ""@);
    lemma_read(entry, "rating"@, ""@);
    lemma_read(entry, "plays"@, ""@);
    lemma_read(entry, "file"@, ""@);
    lemma_read(entry, "type"@, ""@);
    lemma_read(entry, "replay_gain"@, ""@);
}

/// Each field of an album, an artist, a playlist and a tag is what its entry holds under the
/// field's own name.
pub proof fn law_collections_are_read_field_by_field(id: u64, entry: FieldsView)
    ensures
        ({
            let album = AlbumView::decoded(id, entry);
            &&& album.id == id
            &&& is_text(entry, "name"@, "Unknown Album"@, album.name)
            &&& is_list(entry, "tracks"@, album.tracks)
            &&& is_unsigned(entry, "artist_id"@, album.artist_id)
            &&& is_flag(entry, "trashed"@, album.trashed)
            &&& is_signed(entry, "rating"@, album.rating)
            &&& is_signed(entry, "year"@, album.year)
            &&& is_signed(entry, "disc"@, album.disc)
        }),
        ({
            let artist = ArtistView::decoded(id, entry);
            &&& artist.id == id
            &&& is_text(entry, "name"@, "Unknown Artist"@, artist.name)
            &&& is_list(entry, "tracks"@, artist.tracks)
            &&& is_flag(entry, "trashed"@, artist.trashed)
            &&& is_signed(entry, "rating"@, artist.rating)
        }),
        ({
            let playlist = PlaylistView::decoded(id, entry);
            &&& playlist.id == id
            &&& is_text(entry, "name"@, "Untitled Playlist"@, playlist.name)
            &&& is_list(entry, "tracks"@, playlist.tracks)
            &&& is_text(entry, "description"@, ""@, playlist.description)
            &&& is_flag(entry, "system_created"@, playlist.system_created)
        }),
        ({
            let tag = TagView::decoded(id, entry);
            &&& tag.id == id
            &&& is_text(entry, "name"@, "Untitled Tag"@, tag.name)
            &&& is_flag(entry, "archived"@, tag.archived)
            &&& is_list(entry, "tracks"@, tag.tracks)
        }),
{
    lemma_read(entry, "name"@, "Unknown Album"@);
    lemma_read(entry, "name"@, "Unknown Artist"@);
    lemma_read(entry, "name"@, "Untitled Playlist"@);
    lemma_read(entry, "name"@, "Untitled Tag"@);
    lemma_read(entry, "tracks"@, ""@);
    lemma_read(entry, "artist_id"@, ""@);
    lemma_read(entry, "trashed"@, ""@);
    lemma_read(entry, "rating"@, ""@);
    lemma_read(entry, "year"@, ""@);
    lemma_read(entry, "disc"@, ""@);
    lemma_read(entry, "description"@, ""@);
    lemma_read(entry, "system_created"@, ""@);
    lemma_read(entry, "archived"@, ""@);
}

/// The last of the entries whose name is this number holds this value.
pub open spec fn entry_is(
    entries: Seq<(Seq<char>, JsonView)>,
    id: u64,
    value: JsonView,
) -> bool {
    exists|k: int|
        0 <= k < entries.len() && parsed_u64((#[trigger] entries[k]).0) == Some(id) && entries[k].1
            == value && forall|j: int|
            k < j < entries.len() ==> parsed_u64((#[trigger] entries[j]).0) != Some(id)
}

/// The map of a collection, or no columns where it has none.
pub open spec fn has_columns(
    entries: Seq<(Seq<char>, JsonView)>,
    columns: Seq<(Seq<char>, JsonView)>,
) -> bool {
    first_is(entries, "map"@, JsonView::Object(columns))
}

proof fn lemma_row_entry(
    columns: Seq<(Seq<char>, JsonView)>,
    entries: Seq<(Seq<char>, JsonView)>,
    id: u64,
    row: Seq<JsonView>,
)
    requires
        entry_is(entries, id, JsonView::Array(row)),
    ensures
        latest(rows_of(columns, entries)).dom().contains(id),
        latest(rows_of(columns, entries))[id] == (FieldsView::Row { columns, row }),
    decreases entries.len(),
{
    let k = choose|k: int|
        0 <= k < entries.len() && parsed_u64((#[trigger] entries[k]).0) == Some(id) && entries[k].1
            == JsonView::Array(row) && forall|j: int|
            k < j < entries.len() ==> parsed_u64((#[trigger] entries[j]).0) != Some(id);
    let last = entries.len() - 1;
    let before = entries.drop_last();
    let rows = rows_of(columns, entries);
    if k < last {
        assert(before[k] == entries[k]);
        assert forall|j: int| k < j < before.len() implies parsed_u64((#[trigger] before[j]).0)
            != Some(id) by {
            assert(before[j] == entries[j]);
        }
        lemma_row_entry(columns, before, id, row);
        assert(parsed_u64(entries[last].0) != Some(id));
    }
    if rows.len() > rows_of(columns, before).len() {
        assert(rows.drop_last() =~= rows_of(columns, before));
    }
}

proof fn lemma_object_entry(
    entries: Seq<(Seq<char>, JsonView)>,
    id: u64,
    fields: Seq<(Seq<char>, JsonView)>,
)
    requires
        entry_is(entries, id, JsonView::Object(fields)),
    ensures
        latest(objects_of(entries)).dom().contains(id),
        latest(objects_of(entries))[id] == FieldsView::Object(fields),
    decreases entries.len(),
{
    let k = choose|k: int|
        0 <= k < entries.len() && parsed_u64((#[trigger] entries[k]).0) == Some(id) && entries[k].1
            == JsonView::Object(fields) && forall|j: int|
            k < j < entries.len() ==> parsed_u64((#[trigger] entries[j]).0) != Some(id);
    let last = entries.len() - 1;
    let before = entries.drop_last();
    let rows = objects_of(entries);
    if k < last {
        assert(before[k] == entries[k]);
        assert forall|j: int| k < j < before.len() implies parsed_u64((#[trigger] before[j]).0)
            != Some(id) by {
            assert(before[j] == entries[j]);
        }
        lemma_object_entry(before, id, fields);
        assert(parsed_u64(entries[last].0) != Some(id));
    }
    if rows.len() > objects_of(before).len() {
        assert(rows.drop_last() =~= objects_of(before));
    }
}

/// Only an array under a number is a row.
proof fn lemma_row_named(
    columns: Seq<(Seq<char>, JsonView)>,
    entries: Seq<(Seq<char>, JsonView)>,
    id: u64,
)
    requires
        latest(rows_of(columns, entries)).dom().contains(id),
    ensures
        exists|k: int|
            0 <= k < entries.len() && parsed_u64((#[trigger] entries[k]).0) == Some(id)
                && entries[k].1 is Array,
    decreases entries.len(),
{
    if entries.len() > 0 {
        let last = entries.len() - 1;
        let before = entries.drop_last();
        let rows = rows_of(columns, entries);
        if rows.len() > rows_of(columns, before).len() {
            assert(rows.drop_last() =~= rows_of(columns, before));
        }
        if parsed_u64(entries[last].0) == Some(id) && entries[last].1 is Array {
        } else {
            lemma_row_named(columns, before, id);
            let k = choose|k: int|
                0 <= k < before.len() && parsed_u64((#[trigger] before[k]).0) == Some(id)
                    && before[k].1 is Array;
            assert(entries[k] == before[k]);
        }
    }
}

/// The reply holds a collection under this name, with these entries and this map.
pub open spec fn holds_collection(
    root: JsonView,
    name: Seq<char>,
    entries: Seq<(Seq<char>, JsonView)>,
    columns: Seq<(Seq<char>, JsonView)>,
) -> bool {
    &&& root is Object
    &&& first_is(root->Object_0, name, JsonView::Object(entries))
    &&& has_columns(entries, columns)
}

proof fn lemma_collection(
    root: JsonView,
    name: Seq<char>,
    entries: Seq<(Seq<char>, JsonView)>,
    columns: Seq<(Seq<char>, JsonView)>,
)
    requires
        holds_collection(root, name, entries, columns),
    ensures
        root.field(name) == Some(JsonView::Object(entries)),
        first_field(entries, "map"@) == Some(JsonView::Object(columns)),
        collection(root.field(name)) == rows_of(columns, entries),
        tag_collection(root.field(name)) == rows_of(columns, entries),
{
    lemma_first_is(root->Object_0, name, JsonView::Object(entries));
    lemma_first_is(entries, "map"@, JsonView::Object(columns));
    assert(named_columns(entries) == columns);
}

/// Every row of a collection that the reply holds is read, under its own id and by the columns that
/// the collection's own map names; of several rows of one id the last one counts. What is not such
/// a row is not read.
pub proof fn law_rows_are_read(
    root: JsonView,
    entries: Seq<(Seq<char>, JsonView)>,
    columns: Seq<(Seq<char>, JsonView)>,
    id: u64,
    row: Seq<JsonView>,
)
    requires
        entry_is(entries, id, JsonView::Array(row)),
    ensures
        ({
            let library = LibraryView::decoded(root);
            let entry = FieldsView::Row { columns, row };
            &&& holds_collection(root, "tracks"@, entries, columns) ==> library.tracks.dom().contains(
                id,
            ) && library.tracks[id] == TrackView::decoded(id, entry)
            &&& holds_collection(root, "albums"@, entries, columns) ==> library.albums.dom().contains(
                id,
            ) && library.albums[id] == AlbumView::decoded(id, entry)
            &&& holds_collection(root, "artists"@, entries, columns)
                ==> library.artists.dom().contains(id) && library.artists[id]
                == ArtistView::decoded(id, entry)
            &&& holds_collection(root, "playlists"@, entries, columns)
                ==> library.playlists.dom().contains(id) && library.playlists[id]
                == PlaylistView::decoded(id, entry)
            &&& holds_collection(root, "tags"@, entries, columns) ==> library.tags.dom().contains(
                id,
            ) && library.tags[id] == TagView::decoded(id, entry)
        }),
{
    lemma_row_entry(columns, entries, id, row);
    let rows = rows_of(columns, entries);
    assert(decoded_tracks(rows).dom().contains(id));
    assert(decoded_albums(rows).dom().contains(id));
    assert(decoded_artists(rows).dom().contains(id));
    assert(decoded_playlists(rows).dom().contains(id));
    assert(decoded_tags(rows).dom().contains(id));
    if holds_collection(root, "tracks"@, entries, columns) {
        lemma_collection(root, "tracks"@, entries, columns);
    }
    if holds_collection(root, "albums"@, entries, columns) {
        lemma_collection(root, "albums"@, entries, columns);
    }
    if holds_collection(root, "artists"@, entries, columns) {
        lemma_collection(root, "artists"@, entries, columns);
    }
    if holds_collection(root, "playlists"@, entries, columns) {
        lemma_collection(root, "playlists"@, entries, columns);
    }
    if holds_collection(root, "tags"@, entries, columns) {
        lemma_collection(root, "tags"@, entries, columns);
    }
}

/// Tags without a map are objects, each read by its own names.
pub proof fn law_tag_objects_are_read(
    root: JsonView,
    entries: Seq<(Seq<char>, JsonView)>,
    id: u64,
    fields: Seq<(Seq<char>, JsonView)>,
)
    requires
        root is Object,
        first_is(root->Object_0, "tags"@, JsonView::Object(entries)),
        lacks(entries, "map"@),
        entry_is(entries, id, JsonView::Object(fields)),
    ensures
        LibraryView::decoded(root).tags.dom().contains(id),
        LibraryView::decoded(root).tags[id] == TagView::decoded(id, FieldsView::Object(fields)),
{
    lemma_first_is(root->Object_0, "tags"@, JsonView::Object(entries));
    lemma_lacks(entries, "map"@);
    lemma_object_entry(entries, id, fields);
    assert(decoded_tags(objects_of(entries)).dom().contains(id));
}

/// Nothing is read that the reply does not hold: a track, an album, an artist or a playlist stands
/// as a row under its number, and a missing collection is empty.
pub proof fn law_nothing_else_is_read(
    root: JsonView,
    name: Seq<char>,
    entries: Seq<(Seq<char>, JsonView)>,
    columns: Seq<(Seq<char>, JsonView)>,
    id: u64,
)
    requires
        root is Object,
        holds_collection(root, name, entries, columns) || lacks(root->Object_0, name),
        ({
            let library = LibraryView::decoded(root);
            ||| name == "tracks"@ && library.tracks.dom().contains(id)
            ||| name == "albums"@ && library.albums.dom().contains(id)
            ||| name == "artists"@ && library.artists.dom().contains(id)
            ||| name == "playlists"@ && library.playlists.dom().contains(id)
            ||| name == "tags"@ && library.tags.dom().contains(id)
        }),
    ensures
        !lacks(root->Object_0, name),
        exists|k: int|
            0 <= k < entries.len() && parsed_u64((#[trigger] entries[k]).0) == Some(id)
                && entries[k].1 is Array,
{
    if lacks(root->Object_0, name) {
        lemma_lacks(root->Object_0, name);
        assert(latest(Seq::<(u64, FieldsView)>::empty()).dom() =~= Set::<u64>::empty());
        assert(false);
    } else {
        lemma_collection(root, name, entries, columns);
        lemma_row_named(columns, entries, id);
    }
}

/// The status and the time at which it expires are what the reply holds under these names.
pub proof fn law_status_and_expiry_are_read(root: JsonView, value: JsonView)
    requires
        root is Object,
    ensures
        ({
            let top = root->Object_0;
            let library = LibraryView::decoded(root);
            &&& first_is(top, "status"@, value) ==> library.status == Some(value)
            &&& lacks(top, "status"@) ==> library.status is None
            &&& first_is(top, "expires"@, value) && value is Number && value->Number_signed is Some
                ==> library.expires == value->Number_signed
            &&& first_is(top, "expires"@, value) && value is Text ==> library.expires == parsed_i64(
                value->Text_0,
            )
            &&& lacks(top, "expires"@) ==> library.expires is None
        }),
{
    let top = root->Object_0;
    if first_is(top, "status"@, value) {
        lemma_first_is(top, "status"@, value);
    }
    if lacks(top, "status"@) {
        lemma_lacks(top, "status"@);
    }
    if first_is(top, "expires"@, value) {
        lemma_first_is(top, "expires"@, value);
        assert(signed_value(value) == signed_value(value));
    }
    if lacks(top, "expires"@) {
        lemma_lacks(top, "expires"@);
    }
}

/// A track whose row says that it is in the trash is in no listing and is found by no search; one
/// whose row says that it is not, or that does not say, is listed.
pub proof fn law_the_trash_is_not_listed(
    root: JsonView,
    entries: Seq<(Seq<char>, JsonView)>,
    columns: Seq<(Seq<char>, JsonView)>,
    id: u64,
    row: Seq<JsonView>,
    text: Seq<char>,
    ids: Seq<u64>,
)
    requires
        holds_collection(root, "tracks"@, entries, columns),
        entry_is(entries, id, JsonView::Array(row)),
    ensures
        ({
            let library = LibraryView::decoded(root);
            let entry = FieldsView::Row { columns, row };
            &&& given(entry, "trashed"@, JsonView::Bool(true)) ==> !library.sought(text)(id)
            &&& given(entry, "trashed"@, JsonView::Bool(true)) && library.is_listing(
                ids,
                |id: u64| library.listed(id),
            ) ==> !ids.contains(id)
            &&& (given(entry, "trashed"@, JsonView::Bool(false)) || missing(entry, "trashed"@))
                && library.is_listing(ids, |id: u64| library.listed(id)) ==> ids.contains(id)
        }),
{
    let library = LibraryView::decoded(root);
    let entry = FieldsView::Row { columns, row };
    law_rows_are_read(root, entries, columns, id, row);
    law_tracks_are_read_field_by_field(id, entry);
    assert(is_flag(entry, "trashed"@, library.tracks[id].trashed));
    let listed = |id: u64| library.listed(id);
    assert(listed(id) == library.listed(id));
}

/// What a part of a text holds, the text holds.
proof fn lemma_part_holds(before: Seq<char>, part: Seq<char>, after: Seq<char>, query: Seq<char>)
    requires
        contains_text(part, query),
    ensures
        contains_text(before + part + after, query),
{
    let whole = before + part + after;
    let i = choose|i: int| #[trigger] occurs_at(part, query, i);
    let k = before.len() + i;
    assert(whole.subrange(k, k + query.len()) =~= part.subrange(i, i + query.len()));
    assert(occurs_at(whole, query, k));
}

/// A query without a space that two texts hold with a space between them is held by one of them.
proof fn lemma_one_side_holds(left: Seq<char>, right: Seq<char>, query: Seq<char>)
    requires
        contains_text(left + " "@ + right, query),
        !query.contains(' '),
    ensures
        contains_text(left, query) || contains_text(right, query),
{
    reveal_strlit(" ");
    let whole = left + " "@ + right;
    let i = choose|i: int| #[trigger] occurs_at(whole, query, i);
    let n = query.len() as int;
    assert(whole.subrange(i, i + n) == query);
    if i + n <= left.len() {
        assert(left.subrange(i, i + n) =~= query) by {
            assert forall|k: int| 0 <= k < n implies left.subrange(i, i + n)[k] == query[k] by {
                assert(whole.subrange(i, i + n)[k] == whole[i + k]);
            }
        }
        assert(occurs_at(left, query, i));
    } else if i > left.len() {
        let k = i - left.len() - 1;
        assert(right.subrange(k, k + n) =~= query) by {
            assert forall|m: int| 0 <= m < n implies right.subrange(k, k + n)[m] == query[m] by {
                assert(whole.subrange(i, i + n)[m] == whole[i + m]);
            }
        }
        assert(occurs_at(right, query, k));
    } else {
        let m = left.len() - i;
        assert(whole.subrange(i, i + n)[m] == whole[left.len() as int]);
        assert(whole[left.len() as int] == ' ');
        assert(query[m] == ' ');
    }
}

/// The name by which an artist is known, and that of one who is not.
pub open spec fn known_artist(library: LibraryView, id: u64) -> Seq<char> {
    if library.artists.dom().contains(id) {
        library.artists[id].name
    } else {
        "Unknown Artist"@
    }
}

pub open spec fn known_album(library: LibraryView, id: u64) -> Seq<char> {
    if library.albums.dom().contains(id) {
        library.albums[id].name
    } else {
        "Unknown Album"@
    }
}

/// One of the five texts of a track holds the query, in lower case.
pub open spec fn some_field_holds(library: LibraryView, id: u64, query: Seq<char>) -> bool {
    let track = library.tracks[id];
    ||| contains_text(lowercase(track.title), query)
    ||| contains_text(lowercase(track.genre), query)
    ||| contains_text(lowercase(track.path), query)
    ||| contains_text(lowercase(known_artist(library, track.artist_id)), query)
    ||| contains_text(lowercase(known_album(library, track.album_id)), query)
}

/// A search finds every track that is not in the trash and of which the title, the genre, the path,
/// the artist's name or the album's name holds the query, letter case and blanks around it aside. A
/// query of one word finds no others, and a blank one finds them all.
pub proof fn law_every_field_is_searched(library: LibraryView, text: Seq<char>, id: u64)
    ensures
        ({
            let blank = trim(text, CharSet::WhiteSpace).len() == 0;
            let query = lowercase(trim(text, CharSet::WhiteSpace));
            let present = library.tracks.dom().contains(id) && !library.tracks[id].trashed;
            &&& library.sought(text)(id) ==> present
            &&& blank && present ==> library.sought(text)(id)
            &&& !blank && present && some_field_holds(library, id, query) ==> library.sought(text)(
                id,
            )
            &&& !blank && library.sought(text)(id) && !query.contains(' ') ==> some_field_holds(
                library,
                id,
                query,
            )
        }),
{
    let query = lowercase(trim(text, CharSet::WhiteSpace));
    let track = library.tracks[id];
    let a = lowercase(track.title);
    let b = lowercase(track.genre);
    let c = lowercase(track.path);
    let d = lowercase(known_artist(library, track.artist_id));
    let e = lowercase(known_album(library, track.album_id));
    let none = Seq::<char>::empty();
    let sp = " "@;
    let whole = library.search_text(id);
    assert(whole == a + sp + b + sp + c + sp + d + sp + e);
    if contains_text(a, query) {
        lemma_part_holds(none, a, sp + b + sp + c + sp + d + sp + e, query);
        assert(none + a + (sp + b + sp + c + sp + d + sp + e) =~= whole);
    }
    if contains_text(b, query) {
        lemma_part_holds(a + sp, b, sp + c + sp + d + sp + e, query);
        assert(a + sp + b + (sp + c + sp + d + sp + e) =~= whole);
    }
    if contains_text(c, query) {
        lemma_part_holds(a + sp + b + sp, c, sp + d + sp + e, query);
        assert(a + sp + b + sp + c + (sp + d + sp + e) =~= whole);
    }
    if contains_text(d, query) {
        lemma_part_holds(a + sp + b + sp + c + sp, d, sp + e, query);
        assert(a + sp + b + sp + c + sp + d + (sp + e) =~= whole);
    }
    if contains_text(e, query) {
        lemma_part_holds(a + sp + b + sp + c + sp + d + sp, e, none, query);
        assert(a + sp + b + sp + c + sp + d + sp + e + none =~= whole);
    }
    if contains_text(whole, query) && !query.contains(' ') {
        lemma_one_side_holds(a + sp + b + sp + c + sp + d, e, query);
        if contains_text(a + sp + b + sp + c + sp + d, query) {
            lemma_one_side_holds(a + sp + b + sp + c, d, query);
            if contains_text(a + sp + b + sp + c, query) {
                lemma_one_side_holds(a + sp + b, c, query);
                if contains_text(a + sp + b, query) {
                    lemma_one_side_holds(a, b, query);
                }
            }
        }
    }
}

/// `a` comes before `b` in a dictionary by character numbers: at the first place where they differ
/// it has the smaller character, or it ends there.
pub open spec fn precedes(a: Seq<char>, b: Seq<char>) -> bool {
    exists|k: int|
        0 <= k <= a.len() && k < b.len() && #[trigger] a.take(k) == b.take(k) && (k == a.len()
            || a[k] < b[k])
}

proof fn lemma_precedes(a: Seq<char>, b: Seq<char>)
    requires
        precedes(a, b),
    ensures
        text_order(a, b) < 0,
    decreases a.len(),
{
    let k = choose|k: int|
        0 <= k <= a.len() && k < b.len() && #[trigger] a.take(k) == b.take(k) && (k == a.len()
            || a[k] < b[k]);
    if k > 0 {
        assert(a.take(k)[0] == a[0] && b.take(k)[0] == b[0]);
        let c = a.drop_first();
        let d = b.drop_first();
        assert(c.take(k - 1) =~= a.take(k).drop_first());
        assert(d.take(k - 1) =~= b.take(k).drop_first());
        assert(c.take(k - 1) == d.take(k - 1));
        lemma_precedes(c, d);
    }
}

/// A listing goes by the artist's name, then the album's name, then the track's number, then its
/// title, and then its id.
pub proof fn law_listings_are_in_order(
    library: LibraryView,
    wanted: spec_fn(u64) -> bool,
    ids: Seq<u64>,
    i: int,
    j: int,
)
    requires
        library.is_listing(ids, wanted),
        0 <= i < j < ids.len(),
    ensures
        ({
            let a = library.tracks[ids[i]];
            let b = library.tracks[ids[j]];
            let same_artist = known_artist(library, a.artist_id) == known_artist(
                library,
                b.artist_id,
            );
            let same_album = known_album(library, a.album_id) == known_album(library, b.album_id);
            &&& !precedes(known_artist(library, b.artist_id), known_artist(library, a.artist_id))
            &&& same_artist ==> !precedes(
                known_album(library, b.album_id),
                known_album(library, a.album_id),
            )
            &&& same_artist && same_album ==> a.track <= b.track
            &&& same_artist && same_album && a.track == b.track ==> !precedes(b.title, a.title)
            &&& same_artist && same_album && a.track == b.track && a.title == b.title ==> a.id
                < b.id
        }),
{
    let a = library.track_key(ids[i]);
    let b = library.track_key(ids[j]);
    law_text_order_is_total(a.artist, b.artist);
    law_text_order_is_total(a.album, b.album);
    law_text_order_is_total(a.title, b.title);
    if precedes(b.artist, a.artist) {
        lemma_precedes(b.artist, a.artist);
    }
    if precedes(b.album, a.album) {
        lemma_precedes(b.album, a.album);
    }
    if precedes(b.title, a.title) {
        lemma_precedes(b.title, a.title);
    }
}

/// A track is called by its artist and its title, and one that is not in the library by its number.
pub proof fn law_tracks_are_called_by_artist_and_title(library: LibraryView, id: u64)
    ensures
        library.tracks.dom().contains(id) ==> library.label(id) == known_artist(
            library,
            library.tracks[id].artist_id,
        ) + " - "@ + library.tracks[id].title,
        !library.tracks.dom().contains(id) ==> library.label(id) == "Track "@ + decimal(id as nat),
        library.artist_name(id) == known_artist(library, id),
        library.album_name(id) == known_album(library, id),
{
}

/// A length of so many minutes and seconds is written as the minutes, a colon and two digits for
/// the seconds; less than nothing is nothing.
pub proof fn law_lengths_are_minutes_and_seconds(length: i64, minutes: nat, seconds: nat)
    requires
        length == minutes * 60 + seconds,
        seconds < 60,
    ensures
        Track::spec_duration_label(length) == decimal(minutes) + ":"@ + seq![
            digit(seconds / 10),
            digit(seconds % 10),
        ],
        forall|below: i64|
            below < 0 ==> #[trigger] Track::spec_duration_label(below)
                == Track::spec_duration_label(0),
{
    assert(length as nat / 60 == minutes && length as nat % 60 == seconds);
    if seconds < 10 {
        assert(seconds / 10 == 0);
        assert(digit(0) == '0');
        assert(crate::text::decimal2(seconds) =~= seq![digit(seconds / 10), digit(seconds % 10)]);
    } else {
        assert(decimal(seconds / 10) == seq![digit(seconds / 10)]);
        assert(crate::text::decimal2(seconds) =~= seq![digit(seconds / 10), digit(seconds % 10)]);
    }
}

} // verus!
