use vstd::prelude::*;

use crate::text::{all_digits, chars_of, is_digit, is_name_char, name_char, string_of, valid_name};

verus! {

/// What a request path asks for. The three routes are tried in the order
/// given here; a path that none of them takes is `NotFound`.
pub enum Route {
    /// `/index.json`
    Index,
    /// `/{tileset}.json`
    TileJson { tileset: String },
    /// `/{tileset}/{z}/{x}/{y}.pbf`, the coordinates as written (maybe empty).
    Tile { tileset: String, z: String, x: String, y: String },
    NotFound,
}

pub open spec fn slash() -> Seq<char> {
    seq!['/']
}

pub open spec fn json_suffix() -> Seq<char> {
    seq!['.', 'j', 's', 'o', 'n']
}

pub open spec fn pbf_suffix() -> Seq<char> {
    seq!['.', 'p', 'b', 'f']
}

pub open spec fn index_path() -> Seq<char> {
    seq!['/', 'i', 'n', 'd', 'e', 'x'] + json_suffix()
}

/// `/{name}.json`
pub open spec fn tilejson_path(name: Seq<char>) -> Seq<char> {
    slash() + name + json_suffix()
}

/// `/{name}/{z}/{x}/{y}.pbf`
pub open spec fn tile_path(name: Seq<char>, z: Seq<char>, x: Seq<char>, y: Seq<char>) -> Seq<
    char,
> {
    slash() + name + slash() + z + slash() + x + slash() + y + pbf_suffix()
}

/// The path is taken by the TileJSON route.
pub open spec fn matches_tilejson(p: Seq<char>) -> bool {
    exists|n: Seq<char>| valid_name(n) && p == #[trigger] tilejson_path(n)
}

pub open spec fn tile_parts_ok(n: Seq<char>, z: Seq<char>, x: Seq<char>, y: Seq<char>) -> bool {
    valid_name(n) && all_digits(z) && all_digits(x) && all_digits(y)
}

/// The path is taken by the tile route.
pub open spec fn matches_tile(p: Seq<char>) -> bool {
    exists|n: Seq<char>, z: Seq<char>, x: Seq<char>, y: Seq<char>|
        tile_parts_ok(n, z, x, y) && p == #[trigger] tile_path(n, z, x, y)
}

fn literal_index() -> (r: Vec<char>)
    ensures
        r@ == index_path(),
{
    let r = vec!['/', 'i', 'n', 'd', 'e', 'x', '.', 'j', 's', 'o', 'n'];
    assert(r@ =~= index_path());
    r
}

fn literal_json() -> (r: Vec<char>)
    ensures
        r@ == json_suffix(),
{
    let r = vec!['.', 'j', 's', 'o', 'n'];
    assert(r@ =~= json_suffix());
    r
}

fn literal_pbf() -> (r: Vec<char>)
    ensures
        r@ == pbf_suffix(),
{
    let r = vec!['.', 'p', 'b', 'f'];
    assert(r@ =~= pbf_suffix());
    r
}

/// Whether `lit` stands in `v` from position `start` on.
fn matches_at(v: &Vec<char>, start: usize, lit: &Vec<char>) -> (r: bool)
    ensures
        r == (start + lit@.len() <= v@.len() && v@.subrange(
            start as int,
            start + lit@.len(),
        ) == lit@),
{
    if start > v.len() || lit.len() > v.len() - start {
        return false;
    }
    let mut i: usize = 0;
    while i < lit.len()
        invariant
            start + lit@.len() <= v@.len() <= usize::MAX,
            i <= lit@.len(),
            forall|k: int| 0 <= k < i ==> v@[start + k] == lit@[k],
        decreases lit@.len() - i,
    {
        if v[start + i] != lit[i] {
            assert(v@.subrange(start as int, start + lit@.len())[i as int] != lit@[i as int]);
            return false;
        }
        i = i + 1;
    }
    assert(v@.subrange(start as int, start + lit@.len()) =~= lit@);
    true
}

fn names_ok(v: &Vec<char>, from: usize, to: usize) -> (r: bool)
    requires
        from <= to <= v@.len(),
    ensures
        r == valid_name(v@.subrange(from as int, to as int)),
{
    let mut i: usize = from;
    while i < to
        invariant
            from <= i <= to <= v@.len(),
            forall|k: int| from <= k < i ==> is_name_char(v@[k]),
        decreases to - i,
    {
        if !name_char(v[i]) {
            assert(!is_name_char(v@.subrange(from as int, to as int)[i - from]));
            return false;
        }
        i = i + 1;
    }
    assert forall|k: int| 0 <= k < to - from implies #[trigger] is_name_char(
        v@.subrange(from as int, to as int)[k],
    ) by {
        assert(is_name_char(v@[from + k]));
    }
    true
}

fn digits_ok(v: &Vec<char>, from: usize, to: usize) -> (r: bool)
    requires
        from <= to <= v@.len(),
    ensures
        r == all_digits(v@.subrange(from as int, to as int)),
{
    let mut i: usize = from;
    while i < to
        invariant
            from <= i <= to <= v@.len(),
            forall|k: int| from <= k < i ==> is_digit(v@[k]),
        decreases to - i,
    {
        let c = v[i];
        if !('0' <= c && c <= '9') {
            assert(!is_digit(v@.subrange(from as int, to as int)[i - from]));
            return false;
        }
        i = i + 1;
    }
    assert forall|k: int| 0 <= k < to - from implies #[trigger] is_digit(
        v@.subrange(from as int, to as int)[k],
    ) by {
        assert(is_digit(v@[from + k]));
    }
    true
}

/// The first position in `[from, to)` that holds a `/`.
fn find_slash(v: &Vec<char>, from: usize, to: usize) -> (r: Option<usize>)
    requires
        from <= to <= v@.len(),
    ensures
        r matches Some(i) ==> from <= i < to && v@[i as int] == '/' && forall|k: int|
            from <= k < i ==> v@[k] != '/',
        r is None ==> forall|k: int| from <= k < to ==> v@[k] != '/',
{
    let mut i: usize = from;
    while i < to
        invariant
            from <= i <= to <= v@.len(),
            forall|k: int| from <= k < i ==> v@[k] != '/',
        decreases to - i,
    {
        if v[i] == '/' {
            return Some(i);
        }
        i = i + 1;
    }
    None
}

proof fn lemma_tilejson_parts(n: Seq<char>)
    ensures
        ({
            let p = tilejson_path(n);
            let a = n.len() as int;
            &&& p.len() == a + 6
            &&& p[0] == '/'
            &&& p.subrange(1, 1 + a) == n
            &&& p.subrange(1 + a, a + 6) == json_suffix()
        }),
{
    let p = tilejson_path(n);
    let a = n.len() as int;
    assert(p.subrange(1, 1 + a) =~= n);
    assert(p.subrange(1 + a, a + 6) =~= json_suffix());
}

proof fn lemma_tile_parts(n: Seq<char>, z: Seq<char>, x: Seq<char>, y: Seq<char>)
    ensures
        ({
            let p = tile_path(n, z, x, y);
            let a = n.len() as int;
            let b = z.len() as int;
            let c = x.len() as int;
            let d = y.len() as int;
            &&& p.len() == a + b + c + d + 8
            &&& p[0] == '/'
            &&& p[1 + a] == '/'
            &&& p[2 + a + b] == '/'
            &&& p[3 + a + b + c] == '/'
            &&& p.subrange(1, 1 + a) == n
            &&& p.subrange(2 + a, 2 + a + b) == z
            &&& p.subrange(3 + a + b, 3 + a + b + c) == x
            &&& p.subrange(4 + a + b + c, 4 + a + b + c + d) == y
            &&& p.subrange(4 + a + b + c + d, p.len() as int) == pbf_suffix()
        }),
{
    let p = tile_path(n, z, x, y);
    let a = n.len() as int;
    let b = z.len() as int;
    let c = x.len() as int;
    let d = y.len() as int;
    assert(p.subrange(1, 1 + a) =~= n);
    assert(p.subrange(2 + a, 2 + a + b) =~= z);
    assert(p.subrange(3 + a + b, 3 + a + b + c) =~= x);
    assert(p.subrange(4 + a + b + c, 4 + a + b + c + d) =~= y);
    assert(p.subrange(4 + a + b + c + d, p.len() as int) =~= pbf_suffix());
}

proof fn lemma_tile_slashes(p: Seq<char>, n: Seq<char>, z: Seq<char>, x: Seq<char>, y: Seq<char>)
    requires
        tile_parts_ok(n, z, x, y),
        p == tile_path(n, z, x, y),
    ensures
        ({
            let a = n.len() as int;
            let b = z.len() as int;
            let c = x.len() as int;
            let d = y.len() as int;
            &&& forall|k: int| 1 <= k < 1 + a ==> p[k] != '/'
            &&& forall|k: int| 2 + a <= k < 2 + a + b ==> p[k] != '/'
            &&& forall|k: int| 3 + a + b <= k < 3 + a + b + c ==> p[k] != '/'
        }),
{
    lemma_tile_parts(n, z, x, y);
    let a = n.len() as int;
    let b = z.len() as int;
    let c = x.len() as int;
    assert forall|k: int| 1 <= k < 1 + a implies p[k] != '/' by {
        assert(p.subrange(1, 1 + a)[k - 1] == n[k - 1]);
        assert(is_name_char(n[k - 1]));
    }
    assert forall|k: int| 2 + a <= k < 2 + a + b implies p[k] != '/' by {
        assert(p.subrange(2 + a, 2 + a + b)[k - 2 - a] == z[k - 2 - a]);
        assert(is_digit(z[k - 2 - a]));
    }
    assert forall|k: int| 3 + a + b <= k < 3 + a + b + c implies p[k] != '/' by {
        assert(p.subrange(3 + a + b, 3 + a + b + c)[k - 3 - a - b] == x[k - 3 - a - b]);
        assert(is_digit(x[k - 3 - a - b]));
    }
}

/// Where the path is `/{name}.json` with a valid name, the end of the name.
fn tilejson_name(v: &Vec<char>) -> (r: Option<usize>)
    ensures
        r matches Some(e) ==> 1 <= e <= v@.len() && valid_name(v@.subrange(1, e as int))
            && v@ == tilejson_path(v@.subrange(1, e as int)),
        r is None ==> !matches_tilejson(v@),
{
    let n = v.len();
    let js = literal_json();
    let ok = n >= 6 && v[0] == '/' && matches_at(v, n - 5, &js) && names_ok(v, 1, n - 5);
    if !ok {
        assert forall|m: Seq<char>| valid_name(m) implies v@ != #[trigger] tilejson_path(m) by {
            if v@ == tilejson_path(m) {
                lemma_tilejson_parts(m);
            }
        }
        return None;
    }
    assert(v@ =~= tilejson_path(v@.subrange(1, n - 5)));
    Some(n - 5)
}

/// Where the path is `/{name}/{z}/{x}/{y}.pbf` with valid parts, the
/// positions of the three inner slashes.
fn tile_split(v: &Vec<char>) -> (r: Option<(usize, usize, usize)>)
    ensures
        r matches Some((s1, s2, s3)) ==> {
            let e = v@.len() - 4;
            let n = v@.subrange(1, s1 as int);
            let z = v@.subrange(s1 + 1, s2 as int);
            let x = v@.subrange(s2 + 1, s3 as int);
            let y = v@.subrange(s3 + 1, e);
            &&& 1 <= s1 < s2 < s3 < e
            &&& tile_parts_ok(n, z, x, y)
            &&& v@ == tile_path(n, z, x, y)
        },
        r is None ==> !matches_tile(v@),
{
    let n = v.len();
    let pbf = literal_pbf();
    if !(n >= 8 && v[0] == '/' && matches_at(v, n - 4, &pbf)) {
        assert forall|m: Seq<char>, z: Seq<char>, x: Seq<char>, y: Seq<char>|
            tile_parts_ok(m, z, x, y) implies v@ != #[trigger] tile_path(m, z, x, y) by {
            if v@ == tile_path(m, z, x, y) {
                lemma_tile_parts(m, z, x, y);
            }
        }
        return None;
    }
    let e = n - 4;
    let s1 = match find_slash(v, 1, e) {
        Some(i) => i,
        None => {
            assert forall|m: Seq<char>, z: Seq<char>, x: Seq<char>, y: Seq<char>|
                tile_parts_ok(m, z, x, y) implies v@ != #[trigger] tile_path(m, z, x, y) by {
                if v@ == tile_path(m, z, x, y) {
                    lemma_tile_parts(m, z, x, y);
                    assert(v@[1 + m.len() as int] == '/');
                }
            }
            return None;
        },
    };
    let s2 = match find_slash(v, s1 + 1, e) {
        Some(i) => i,
        None => {
            assert forall|m: Seq<char>, z: Seq<char>, x: Seq<char>, y: Seq<char>|
                tile_parts_ok(m, z, x, y) implies v@ != #[trigger] tile_path(m, z, x, y) by {
                if v@ == tile_path(m, z, x, y) {
                    lemma_tile_parts(m, z, x, y);
                    lemma_tile_slashes(v@, m, z, x, y);
                    assert(v@[1 + m.len() as int] == '/');
                    assert(v@[2 + m.len() + z.len() as int] == '/');
                }
            }
            return None;
        },
    };
    let s3 = match find_slash(v, s2 + 1, e) {
        Some(i) => i,
        None => {
            assert forall|m: Seq<char>, z: Seq<char>, x: Seq<char>, y: Seq<char>|
                tile_parts_ok(m, z, x, y) implies v@ != #[trigger] tile_path(m, z, x, y) by {
                if v@ == tile_path(m, z, x, y) {
                    lemma_tile_parts(m, z, x, y);
                    lemma_tile_slashes(v@, m, z, x, y);
                    assert(v@[1 + m.len() as int] == '/');
                    assert(v@[2 + m.len() + z.len() as int] == '/');
                    assert(v@[3 + m.len() + z.len() + x.len() as int] == '/');
                }
            }
            return None;
        },
    };
    if !(names_ok(v, 1, s1) && digits_ok(v, s1 + 1, s2) && digits_ok(v, s2 + 1, s3) && digits_ok(
        v,
        s3 + 1,
        e,
    )) {
        assert forall|m: Seq<char>, z: Seq<char>, x: Seq<char>, y: Seq<char>|
            tile_parts_ok(m, z, x, y) implies v@ != #[trigger] tile_path(m, z, x, y) by {
            if v@ == tile_path(m, z, x, y) {
                lemma_tile_parts(m, z, x, y);
                lemma_tile_slashes(v@, m, z, x, y);
                assert(v@[1 + m.len() as int] == '/');
                assert(v@[2 + m.len() + z.len() as int] == '/');
                assert(v@[3 + m.len() + z.len() + x.len() as int] == '/');
                assert(s1 == 1 + m.len());
                assert(s2 == 2 + m.len() + z.len());
                assert(s3 == 3 + m.len() + z.len() + x.len());
            }
        }
        return None;
    }
    let ghost gm = v@.subrange(1, s1 as int);
    let ghost gz = v@.subrange(s1 + 1, s2 as int);
    let ghost gx = v@.subrange(s2 + 1, s3 as int);
    let ghost gy = v@.subrange(s3 + 1, e as int);
    assert(v@ =~= tile_path(gm, gz, gx, gy));
    Some((s1, s2, s3))
}

/// Matches a request path against the three routes; the first that takes it wins.
pub fn route(path: &str) -> (r: Route)
    ensures
        (r is Index) == (path@ == index_path()),
        r matches Route::TileJson { tileset } ==> path@ != index_path() && valid_name(tileset@)
            && path@ == tilejson_path(tileset@),
        r matches Route::Tile { tileset, z, x, y } ==> path@ != index_path() && !matches_tilejson(
            path@,
        ) && tile_parts_ok(tileset@, z@, x@, y@) && path@ == tile_path(tileset@, z@, x@, y@),
        r is NotFound ==> path@ != index_path() && !matches_tilejson(path@) && !matches_tile(
            path@,
        ),
{
    let v = chars_of(path);
    let n = v.len();
    let idx = literal_index();
    if n == idx.len() && matches_at(&v, 0, &idx) {
        assert(v@.subrange(0, n as int) =~= v@);
        return Route::Index;
    }
    proof {
        if v@ == index_path() {
            assert(v@.subrange(0, 11) =~= v@);
        }
    }
    if let Some(e) = tilejson_name(&v) {
        return Route::TileJson { tileset: string_of(path, 1, e) };
    }
    match tile_split(&v) {
        Some((s1, s2, s3)) => Route::Tile {
            tileset: string_of(path, 1, s1),
            z: string_of(path, s1 + 1, s2),
            x: string_of(path, s2 + 1, s3),
            y: string_of(path, s3 + 1, n - 4),
        },
        None => Route::NotFound,
    }
}

/// A path names at most one tileset for the TileJSON route.
pub proof fn lemma_tilejson_path_unique(n1: Seq<char>, n2: Seq<char>)
    requires
        tilejson_path(n1) == tilejson_path(n2),
    ensures
        n1 == n2,
{
    lemma_tilejson_parts(n1);
    lemma_tilejson_parts(n2);
}

/// A path has at most one reading as a tile request.
pub proof fn lemma_tile_path_unique(
    n1: Seq<char>,
    z1: Seq<char>,
    x1: Seq<char>,
    y1: Seq<char>,
    n2: Seq<char>,
    z2: Seq<char>,
    x2: Seq<char>,
    y2: Seq<char>,
)
    requires
        tile_parts_ok(n1, z1, x1, y1),
        tile_parts_ok(n2, z2, x2, y2),
        tile_path(n1, z1, x1, y1) == tile_path(n2, z2, x2, y2),
    ensures
        n1 == n2 && z1 == z2 && x1 == x2 && y1 == y2,
{
    let p = tile_path(n1, z1, x1, y1);
    lemma_tile_parts(n1, z1, x1, y1);
    lemma_tile_parts(n2, z2, x2, y2);
    lemma_tile_slashes(p, n1, z1, x1, y1);
    lemma_tile_slashes(p, n2, z2, x2, y2);
    let a1 = n1.len() as int;
    let a2 = n2.len() as int;
    if a1 < a2 {
        assert(p[1 + a1] == '/');
    } else if a2 < a1 {
        assert(p[1 + a2] == '/');
    }
    let b1 = z1.len() as int;
    let b2 = z2.len() as int;
    if b1 < b2 {
        assert(p[2 + a1 + b1] == '/');
    } else if b2 < b1 {
        assert(p[2 + a1 + b2] == '/');
    }
    let c1 = x1.len() as int;
    let c2 = x2.len() as int;
    if c1 < c2 {
        assert(p[3 + a1 + b1 + c1] == '/');
    } else if c2 < c1 {
        assert(p[3 + a1 + b1 + c2] == '/');
    }
}

/// No path is taken both by the TileJSON route and by the tile route.
pub proof fn lemma_routes_disjoint(n: Seq<char>, m: Seq<char>, z: Seq<char>, x: Seq<char>, y: Seq<char>)
    ensures
        tilejson_path(n) != tile_path(m, z, x, y),
        index_path() != tile_path(m, z, x, y),
{
    lemma_tilejson_parts(n);
    lemma_tile_parts(m, z, x, y);
    let p = tilejson_path(n);
    let q = tile_path(m, z, x, y);
    assert(p[p.len() - 1] == json_suffix()[4]);
    assert(q[q.len() - 1] == pbf_suffix()[3]);
    assert(index_path()[10] == 'n');
}

} // verus!
