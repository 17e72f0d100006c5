use vstd::prelude::*;
use crate::text::{decimal, push_char, push_decimal};

verus! {

/// How `Display` prints a signed integer: a minus sign before the digits of
/// a negative number.
pub open spec fn signed_decimal(n: int) -> Seq<char> {
    if n < 0 {
        seq!['-'] + decimal((-n) as nat)
    } else {
        decimal(n as nat)
    }
}

/// Appends `id` to `out` as `Display` prints it.
fn push_signed(out: &mut String, id: i32)
    ensures
        final(out)@ == old(out)@ + signed_decimal(id as int),
{
    let wide = id as i64;
    if wide < 0 {
        push_char(out, '-');
        push_decimal(out, (-wide) as u64);
        assert(final(out)@ =~= old(out)@ + signed_decimal(id as int));
    } else {
        push_decimal(out, wide as u64);
    }
}

/// The path of the 300x300 artwork of album `id`, as the library listing
/// links it: `/albums/{id}/300x300`.
pub fn album_artwork_path(id: i32) -> (path: String)
    ensures
        path@ == "/albums/"@ + signed_decimal(id as int) + "/300x300"@,
{
    let mut path = String::new();
    path.append("/albums/");
    push_signed(&mut path, id);
    path.append("/300x300");
    path
}

/// `prefix` followed by `id`.
fn keyed(prefix: &str, id: i32) -> (key: String)
    ensures
        key@ == prefix@ + signed_decimal(id as int),
{
    let mut key = String::new();
    key.append(prefix);
    push_signed(&mut key, id);
    key
}

/// The cache key under which artist `artist_id` is kept: `artist|{id}`.
pub fn artist_cache_key(artist_id: i32) -> (key: String)
    ensures
        key@ == "artist|"@ + signed_decimal(artist_id as int),
{
    keyed("artist|", artist_id)
}

/// The cache key under which album `album_id` is kept: `album|{id}`.
pub fn album_cache_key(album_id: i32) -> (key: String)
    ensures
        key@ == "album|"@ + signed_decimal(album_id as int),
{
    keyed("album|", album_id)
}

/// The cache key under which the tracks of album `album_id` are kept.
pub fn album_tracks_cache_key(album_id: i32) -> (key: String)
    ensures
        key@ == "sqlite|local_album_tracks|"@ + signed_decimal(album_id as int),
{
    keyed("sqlite|local_album_tracks|", album_id)
}

/// The cache key under which the albums of artist `artist_id` are kept.
pub fn artist_albums_cache_key(artist_id: i32) -> (key: String)
    ensures
        key@ == "sqlite|local_artist_albums|"@ + signed_decimal(artist_id as int),
{
    keyed("sqlite|local_artist_albums|", artist_id)
}

/// Why an artist could not be had; `E` is the database's error.
#[derive(Debug)]
pub enum GetArtistError<E> {
    ArtistNotFound { artist_id: i32 },
    UnknownSource { artist_source: String },
    PoisonError,
    DbError(E),
}

/// Why an album could not be had; `E` is the database's error.
#[derive(Debug)]
pub enum GetAlbumError<E> {
    AlbumNotFound { album_id: i32 },
    TooManyAlbumsFound { album_id: i32 },
    UnknownSource { album_source: String },
    PoisonError,
    DbError(E),
}

/// The artist that a database lookup of `artist_id` found: not found when
/// the lookup gave nothing, the database's error when it failed.
pub fn artist_found<T, E>(artist_id: i32, looked_up: Result<Option<T>, E>) -> (r: Result<
    T,
    GetArtistError<E>,
>)
    ensures
        match looked_up {
            Ok(Some(artist)) => r == Ok::<T, GetArtistError<E>>(artist),
            Ok(None) => r == Err::<T, GetArtistError<E>>(GetArtistError::ArtistNotFound { artist_id }),
            Err(e) => r == Err::<T, GetArtistError<E>>(GetArtistError::DbError(e)),
        },
{
    match looked_up {
        Ok(Some(artist)) => Ok(artist),
        Ok(None) => Err(GetArtistError::ArtistNotFound { artist_id }),
        Err(e) => Err(GetArtistError::DbError(e)),
    }
}

/// The album that a database lookup of `album_id` found: not found when the
/// lookup gave nothing, the database's error when it failed.
pub fn album_found<T, E>(album_id: i32, looked_up: Result<Option<T>, E>) -> (r: Result<
    T,
    GetAlbumError<E>,
>)
    ensures
        match looked_up {
            Ok(Some(album)) => r == Ok::<T, GetAlbumError<E>>(album),
            Ok(None) => r == Err::<T, GetAlbumError<E>>(GetAlbumError::AlbumNotFound { album_id }),
            Err(e) => r == Err::<T, GetAlbumError<E>>(GetAlbumError::DbError(e)),
        },
{
    match looked_up {
        Ok(Some(album)) => Ok(album),
        Ok(None) => Err(GetAlbumError::AlbumNotFound { album_id }),
        Err(e) => Err(GetAlbumError::DbError(e)),
    }
}

/// A row of the `albums` table, with the columns the album listing reads.
pub struct AlbumRow {
    pub id: i64,
    pub artist: i64,
    pub title: String,
    pub date_released: Option<String>,
    pub artwork: Option<String>,
    pub directory: Option<String>,
}

/// An album as the library listing shows it.
pub struct ListedAlbum {
    pub id: i32,
    pub title: String,
    pub artist_id: i32,
    pub date_released: Option<String>,
    pub artwork: Option<String>,
    pub directory: Option<String>,
}

/// Whether `album` is what the listing makes of `row`: the ids cut to 32
/// bits, the texts as they are, and an artwork path exactly when the row
/// has artwork.
pub open spec fn listed_from(row: AlbumRow, album: ListedAlbum) -> bool {
    &&& album.id == row.id as i32
    &&& album.artist_id == row.artist as i32
    &&& album.title@ == row.title@
    &&& album.date_released == row.date_released
    &&& album.directory == row.directory
    &&& (album.artwork is Some <==> row.artwork is Some)
    &&& album.artwork matches Some(path) ==> path@ == "/albums/"@ + signed_decimal(album.id as int)
        + "/300x300"@
}

/// The album the listing makes of one row.
pub fn album_from_row(row: AlbumRow) -> (album: ListedAlbum)
    ensures
        listed_from(row, album),
{
    let id = row.id as i32;
    let artwork = match row.artwork {
        Some(_) => Some(album_artwork_path(id)),
        None => None,
    };
    ListedAlbum {
        id,
        title: row.title,
        artist_id: row.artist as i32,
        date_released: row.date_released,
        artwork,
        directory: row.directory,
    }
}

/// The rows that could be read, in order.
pub open spec fn read_rows(rows: Seq<Option<AlbumRow>>) -> Seq<AlbumRow>
    decreases rows.len(),
{
    if rows.len() == 0 {
        Seq::empty()
    } else {
        let front = read_rows(rows.drop_last());
        match rows.last() {
            Some(row) => front.push(row),
            None => front,
        }
    }
}

/// The album listing: each row that could be read (`None` is one that could
/// not), made into an album, in order.
pub fn albums_from_rows(rows: Vec<Option<AlbumRow>>) -> (albums: Vec<ListedAlbum>)
    ensures
        albums.len() == read_rows(rows@).len(),
        forall|i: int|
            0 <= i < albums.len() ==> listed_from(#[trigger] read_rows(rows@)[i], albums[i]),
{
    let mut albums: Vec<ListedAlbum> = Vec::new();
    let mut rest = rows;
    let ghost all = rest@;
    let ghost mut done: int = 0;
    while rest.len() > 0
        invariant
            0 <= done <= all.len(),
            rest@ == all.subrange(done, all.len() as int),
            albums.len() == read_rows(all.subrange(0, done)).len(),
            forall|j: int|
                0 <= j < albums.len() ==> listed_from(
                    #[trigger] read_rows(all.subrange(0, done))[j],
                    albums[j],
                ),
        decreases rest.len(),
    {
        let next = rest.remove(0);
        proof {
            assert(all.subrange(0, done + 1).drop_last() =~= all.subrange(0, done));
            assert(all.subrange(0, done + 1).last() == next);
            done = done + 1;
            assert(rest@ =~= all.subrange(done, all.len() as int));
        }
        match next {
            Some(row) => {
                albums.push(album_from_row(row));
            },
            None => {},
        }
    }
    proof {
        assert(all.subrange(0, done) =~= all);
    }
    albums
}

} // verus!
