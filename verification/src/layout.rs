//! The device's content-addressed storage layout: media files are bucketed
//! by `unique_id mod 100` under `iPod_Control/Music`, and the database and
//! artwork files live at fixed paths under the device root.

use crate::text::{hex_seq, hex_string, two_digit_seq, two_digit_string};
use vstd::prelude::*;

verus! {

/// The database-relative location of a track's media file, with `:` as the
/// separator, as the on-device database writes paths.
pub open spec fn track_location_seq(unique_id: u32, extension: Seq<char>) -> Seq<char> {
    ":iPod_Control:Music:F"@ + two_digit_seq(unique_id % 100) + ":"@ + hex_seq(unique_id) + "."@
        + extension
}

/// The filesystem path of the same file under the mount point `root`, with
/// `/` as the separator.
pub open spec fn full_track_location_seq(root: Seq<char>, unique_id: u32, extension: Seq<char>) -> Seq<char> {
    root + "/iPod_Control/Music/F"@ + two_digit_seq(unique_id % 100) + "/"@ + hex_seq(unique_id)
        + "."@ + extension
}

/// The filesystem path of the serialized database under the mount point.
pub open spec fn itunesdb_location_seq(root: Seq<char>) -> Seq<char> {
    root + "/iPod_Control/iTunes/iTunesDB"@
}

/// The filesystem path of the artwork index under the mount point.
pub open spec fn artwork_db_location_seq(root: Seq<char>) -> Seq<char> {
    root + "/iPod_Control/Artwork/ArtworkDB"@
}

/// The filesystem path of one thumbnail file under the mount point.
pub open spec fn artwork_file_location_seq(root: Seq<char>, name: Seq<char>) -> Seq<char> {
    root + "/iPod_Control/Artwork/"@ + name
}

/// Build the database-relative location string for a track's media file.
pub fn get_track_location(unique_id: u32, extension: &str) -> (r: String)
    ensures
        r@ == track_location_seq(unique_id, extension@),
{
    let mut r = String::from_str(":iPod_Control:Music:F");
    r.append(two_digit_string(unique_id % 100).as_str());
    r.append(":");
    r.append(hex_string(unique_id).as_str());
    r.append(".");
    r.append(extension);
    r
}

/// Build the full on-device filesystem path for a track's media file.
pub fn get_full_track_location(root: &str, unique_id: u32, extension: &str) -> (r: String)
    ensures
        r@ == full_track_location_seq(root@, unique_id, extension@),
{
    let mut r = String::from_str(root);
    r.append("/iPod_Control/Music/F");
    r.append(two_digit_string(unique_id % 100).as_str());
    r.append("/");
    r.append(hex_string(unique_id).as_str());
    r.append(".");
    r.append(extension);
    r
}

/// The canonical path of the on-device database file.
pub fn get_itunesdb_location(root: &str) -> (r: String)
    ensures
        r@ == itunesdb_location_seq(root@),
{
    let mut r = String::from_str(root);
    r.append("/iPod_Control/iTunes/iTunesDB");
    r
}

/// The canonical path of the on-device artwork index file.
pub fn get_artwork_db_location(root: &str) -> (r: String)
    ensures
        r@ == artwork_db_location_seq(root@),
{
    let mut r = String::from_str(root);
    r.append("/iPod_Control/Artwork/ArtworkDB");
    r
}

/// The on-device path of one thumbnail file.
pub fn get_artwork_file_location(root: &str, name: &str) -> (r: String)
    ensures
        r@ == artwork_file_location_seq(root@, name@),
{
    let mut r = String::from_str(root);
    r.append("/iPod_Control/Artwork/");
    r.append(name);
    r
}

} // verus!
