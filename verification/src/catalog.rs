//! The catalog's view of a map: the metadata row a download request is built
//! from, and the URL construction for map files, thumbnails and previews.

use vstd::prelude::*;
use vstd::string::StrSliceExecFns;
use vstd::string::StringExecFns;

use crate::text::int_chars;

verus! {

pub const MAPS_BASE_URL: &'static str =
    "https://raw.githubusercontent.com/wtfseanscool/kog-maps/main";

pub const PREVIEWS_BASE_URL: &'static str =
    "https://raw.githubusercontent.com/wtfseanscool/kog-maps-previews/main";

/// Map metadata as the catalog stores it.
#[derive(Clone, Debug)]
pub struct MapRecord {
    pub id: i64,
    pub name: String,
    pub category: String,
    pub stars: i32,
    pub points: i32,
    pub author: String,
    pub release_date: String,
    pub size: i64,
    pub downloaded: bool,
    pub local_path: Option<String>,
}

/// One map entry of the remote manifest.
#[derive(Clone, Debug)]
pub struct ManifestMap {
    pub name: String,
    pub category: String,
    pub stars: i32,
    pub points: i32,
    pub author: String,
    pub release_date: String,
    pub size: i64,
}

/// The remote manifest: a catalog version and its map entries.
pub struct Manifest {
    pub version: String,
    pub map_count: usize,
    pub maps: Vec<ManifestMap>,
}

impl ManifestMap {
    /// The catalog row of a freshly imported manifest entry: not yet
    /// downloaded, id assigned by the caller.
    pub fn to_record(&self, id: i64) -> (r: MapRecord)
        ensures
            r.id == id,
            r.name == self.name,
            r.category == self.category,
            r.stars == self.stars,
            r.points == self.points,
            r.author == self.author,
            r.release_date == self.release_date,
            r.size == self.size,
            !r.downloaded,
            r.local_path is None,
    {
        MapRecord {
            id,
            name: self.name.clone(),
            category: self.category.clone(),
            stars: self.stars,
            points: self.points,
            author: self.author.clone(),
            release_date: self.release_date.clone(),
            size: self.size,
            downloaded: false,
            local_path: None,
        }
    }
}

/// The download URL of a map file:
/// `<base>/<category>/<stars>star/<name>.map`.
pub open spec fn map_url_chars(category: Seq<char>, stars: int, name: Seq<char>) -> Seq<char> {
    MAPS_BASE_URL@ + "/"@ + category + "/"@ + int_chars(stars) + "star/"@ + name + ".map"@
}

pub fn get_map_url(map: &MapRecord) -> (r: String)
    ensures
        r@ == map_url_chars(map.category@, map.stars as int, map.name@),
{
    let mut s = String::from_str(MAPS_BASE_URL);
    s.append("/");
    s.append(map.category.as_str());
    s.append("/");
    let stars_s = crate::text::i64_to_string(map.stars as i64);
    s.append(stars_s.as_str());
    s.append("star/");
    s.append(map.name.as_str());
    s.append(".map");
    proof {
        assert(s@ =~= map_url_chars(map.category@, map.stars as int, map.name@));
    }
    s
}

/// The URL of a map's thumbnail image.
pub open spec fn thumbnail_url_chars(name: Seq<char>) -> Seq<char> {
    PREVIEWS_BASE_URL@ + "/thumbnails/"@ + name + ".png"@
}

pub fn thumbnail_url(name: &str) -> (r: String)
    ensures
        r@ == thumbnail_url_chars(name@),
{
    let mut s = String::from_str(PREVIEWS_BASE_URL);
    s.append("/thumbnails/");
    s.append(name);
    s.append(".png");
    proof {
        assert(s@ =~= thumbnail_url_chars(name@));
    }
    s
}

/// The URL of a map's full preview image.
pub open spec fn preview_url_chars(name: Seq<char>) -> Seq<char> {
    PREVIEWS_BASE_URL@ + "/full/"@ + name + ".png"@
}

pub fn full_preview_url(name: &str) -> (r: String)
    ensures
        r@ == preview_url_chars(name@),
{
    let mut s = String::from_str(PREVIEWS_BASE_URL);
    s.append("/full/");
    s.append(name);
    s.append(".png");
    proof {
        assert(s@ =~= preview_url_chars(name@));
    }
    s
}

/// Whether two strings hold the same characters.
pub fn str_eq(a: &str, b: &str) -> (r: bool)
    ensures
        r == (a@ == b@),
{
    let na = a.unicode_len();
    let nb = b.unicode_len();
    if na != nb {
        return false;
    }
    let mut i: usize = 0;
    while i < na
        invariant
            i <= na,
            na == a@.len(),
            na == b@.len(),
            forall|j: int| 0 <= j < i ==> a@[j] == b@[j],
        decreases na - i,
    {
        if a.get_char(i) != b.get_char(i) {
            return false;
        }
        i = i + 1;
    }
    proof {
        assert(a@ =~= b@);
    }
    true
}

/// The fixed ordering of the categories; names outside it have no index.
pub open spec fn category_index_spec(cat: Seq<char>) -> Option<usize> {
    if cat == "Easy"@ {
        Some(0usize)
    } else if cat == "Main"@ {
        Some(1usize)
    } else if cat == "Hard"@ {
        Some(2usize)
    } else if cat == "Insane"@ {
        Some(3usize)
    } else if cat == "Extreme"@ {
        Some(4usize)
    } else if cat == "Solo"@ {
        Some(5usize)
    } else if cat == "Mod"@ {
        Some(6usize)
    } else if cat == "Extra"@ {
        Some(7usize)
    } else {
        None
    }
}

pub fn category_index(cat: &str) -> (r: Option<usize>)
    ensures
        r == category_index_spec(cat@),
{
    if str_eq(cat, "Easy") {
        Some(0)
    } else if str_eq(cat, "Main") {
        Some(1)
    } else if str_eq(cat, "Hard") {
        Some(2)
    } else if str_eq(cat, "Insane") {
        Some(3)
    } else if str_eq(cat, "Extreme") {
        Some(4)
    } else if str_eq(cat, "Solo") {
        Some(5)
    } else if str_eq(cat, "Mod") {
        Some(6)
    } else if str_eq(cat, "Extra") {
        Some(7)
    } else {
        None
    }
}

} // verus!
