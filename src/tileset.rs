use vstd::prelude::*;

use crate::text::{name_is_valid, valid_name};

verus! {

/// Largest zoom level that a tileset may declare.
pub const MAX_ZOOM: u8 = 30;

/// West, south, east and north edges, in whole degrees.
#[derive(Clone, Copy, Debug, PartialEq, Eq, Structural)]
pub struct Bounds {
    pub west: i32,
    pub south: i32,
    pub east: i32,
    pub north: i32,
}

/// One servable layer source.
pub struct Tileset {
    pub name: String,
    pub minzoom: u8,
    pub maxzoom: u8,
    pub bounds: Bounds,
    pub attribution: Option<String>,
    pub description: Option<String>,
    /// SQL that yields the tile's bytes, with `$1`, `$2`, `$3` standing for z, x and y.
    pub tile_query: String,
}

/// Why a list of tileset definitions cannot become a registry: the first
/// offending row, by its position.
#[derive(Clone, Copy, Debug, PartialEq, Eq, Structural)]
pub enum LoadError {
    /// The name holds a character other than a letter, a digit, `_` or `.`.
    InvalidName { index: usize },
    /// The zoom range is not `minzoom <= maxzoom <= MAX_ZOOM`.
    InvalidZoom { index: usize },
    /// An earlier row has the same name.
    DuplicateName { index: usize },
}

pub open spec fn zoom_ok(t: Tileset) -> bool {
    t.minzoom <= t.maxzoom && t.maxzoom <= MAX_ZOOM
}

/// No row before `i` has the name of row `i`.
pub open spec fn fresh_at(s: Seq<Tileset>, i: int) -> bool {
    forall|j: int| 0 <= j < i ==> s[j].name@ != s[i].name@
}

pub open spec fn row_ok(s: Seq<Tileset>, i: int) -> bool {
    valid_name(s[i].name@) && zoom_ok(s[i]) && fresh_at(s, i)
}

/// The first `i` rows are valid and their names distinct.
pub open spec fn good_prefix(s: Seq<Tileset>, i: int) -> bool {
    forall|k: int| 0 <= k < i ==> #[trigger] row_ok(s, k)
}

/// Some row is named `n`.
pub open spec fn has_name(s: Seq<Tileset>, n: Seq<char>) -> bool {
    exists|i: int| 0 <= i < s.len() && #[trigger] s[i].name@ == n
}

/// The row named `n`, if there is one.
pub open spec fn lookup(s: Seq<Tileset>, n: Seq<char>) -> Option<Tileset> {
    if has_name(s, n) {
        Some(s[choose|i: int| 0 <= i < s.len() && #[trigger] s[i].name@ == n])
    } else {
        None
    }
}

/// The registry: every tileset by its name, fixed once loaded.
pub struct Tilesets {
    sets: Vec<Tileset>,
}

impl View for Tilesets {
    type V = Seq<Tileset>;

    closed spec fn view(&self) -> Seq<Tileset> {
        self.sets@
    }
}

impl Tilesets {
    /// Every row valid, no name twice.
    pub open spec fn wf(&self) -> bool {
        good_prefix(self@, self@.len() as int)
    }

    /// Builds the registry from the definitions read at startup.
    pub fn load(rows: Vec<Tileset>) -> (r: Result<Tilesets, LoadError>)
        ensures
            r is Ok <==> good_prefix(rows@, rows@.len() as int),
            r matches Ok(t) ==> t@ == rows@ && t.wf(),
            r matches Err(LoadError::InvalidName { index }) ==> index < rows@.len() && good_prefix(
                rows@,
                index as int,
            ) && !valid_name(rows@[index as int].name@),
            r matches Err(LoadError::InvalidZoom { index }) ==> index < rows@.len() && good_prefix(
                rows@,
                index as int,
            ) && valid_name(rows@[index as int].name@) && !zoom_ok(rows@[index as int]),
            r matches Err(LoadError::DuplicateName { index }) ==> index < rows@.len()
                && good_prefix(rows@, index as int) && valid_name(rows@[index as int].name@)
                && zoom_ok(rows@[index as int]) && !fresh_at(rows@, index as int),
    {
        let n = rows.len();
        let mut i: usize = 0;
        while i < n
            invariant
                n == rows@.len(),
                i <= n,
                good_prefix(rows@, i as int),
            decreases n - i,
        {
            let t = &rows[i];
            if !name_is_valid(t.name.as_str()) {
                assert(!row_ok(rows@, i as int));
                return Err(LoadError::InvalidName { index: i });
            }
            if !(t.minzoom <= t.maxzoom && t.maxzoom <= MAX_ZOOM) {
                assert(!row_ok(rows@, i as int));
                return Err(LoadError::InvalidZoom { index: i });
            }
            let mut j: usize = 0;
            while j < i
                invariant
                    n == rows@.len(),
                    j <= i < n,
                    good_prefix(rows@, i as int),
                    valid_name(rows@[i as int].name@),
                    zoom_ok(rows@[i as int]),
                    forall|k: int| 0 <= k < j ==> rows@[k].name@ != rows@[i as int].name@,
                decreases i - j,
            {
                if rows[j].name == rows[i].name {
                    assert(!fresh_at(rows@, i as int));
                    assert(!row_ok(rows@, i as int));
                    return Err(LoadError::DuplicateName { index: i });
                }
                j = j + 1;
            }
            assert(row_ok(rows@, i as int));
            i = i + 1;
        }
        Ok(Tilesets { sets: rows })
    }

    /// The tileset named `name`, if the registry holds one.
    pub fn get(&self, name: &str) -> (r: Option<&Tileset>)
        requires
            self.wf(),
        ensures
            r.is_some() == has_name(self@, name@),
            r matches Some(t) ==> lookup(self@, name@) == Some(*t),
    {
        let key = String::from_str(name);
        let n = self.sets.len();
        let mut i: usize = 0;
        while i < n
            invariant
                n == self@.len(),
                self.wf(),
                i <= n,
                key@ == name@,
                forall|k: int| 0 <= k < i ==> self@[k].name@ != name@,
            decreases n - i,
        {
            if self.sets[i].name == key {
                proof {
                    assert(self@[i as int].name@ == name@);
                    assert(has_name(self@, name@));
                    let c = choose|c: int| 0 <= c < self@.len() && #[trigger] self@[c].name@ == name@;
                    assert(0 <= c < self@.len() && self@[c].name@ == name@);
                    if c > i {
                        assert(row_ok(self@, c));
                    }
                }
                return Some(&self.sets[i]);
            }
            i = i + 1;
        }
        None
    }

    /// How many tilesets the registry holds.
    pub fn len(&self) -> (r: usize)
        ensures
            r == self@.len(),
    {
        self.sets.len()
    }
}

} // verus!
