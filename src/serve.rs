use vstd::prelude::*;

use crate::route::{
    index_path, matches_tile, matches_tilejson, route, tile_parts_ok, tile_path, tilejson_path,
    Route, lemma_routes_disjoint, lemma_tile_path_unique, lemma_tilejson_path_unique,
};
use crate::text::{all_digits, digits_value, parse_coord, valid_name};
use crate::tileset::{lookup, Bounds, Tileset, Tilesets};

verus! {

pub const OK: u16 = 200;

pub const NO_CONTENT: u16 = 204;

pub const BAD_REQUEST: u16 = 400;

pub const NOT_FOUND: u16 = 404;

pub const INTERNAL_ERROR: u16 = 500;

pub const UNAVAILABLE: u16 = 503;

#[derive(Clone, Copy, Debug, PartialEq, Eq, Structural)]
pub enum ContentType {
    Json,
    Protobuf,
    Text,
}

pub struct Header {
    pub name: String,
    pub value: String,
}

/// The TileJSON document of one tileset.
pub struct TileJson {
    pub name: String,
    pub description: Option<String>,
    pub attribution: Option<String>,
    pub minzoom: u8,
    pub maxzoom: u8,
    pub bounds: Bounds,
    pub tiles: Vec<String>,
}

pub enum Body {
    Empty,
    Text(String),
    Bytes(Vec<u8>),
    TileJson(TileJson),
}

pub struct Response {
    pub status: u16,
    pub content_type: ContentType,
    pub body: Body,
    pub headers: Vec<Header>,
}

/// What the database gave for one tile query.
pub enum QueryOutcome {
    /// No connection came free within the pool's bound.
    Unavailable,
    /// The query failed, or its connection broke.
    Failed,
    /// The tile's bytes, maybe none.
    Tile(Vec<u8>),
}

/// The tile query to run: the tileset's SQL with z, x and y as its parameters.
pub struct TileQuery {
    pub sql: String,
    pub z: u32,
    pub x: u32,
    pub y: u32,
}

/// What a request leads to: a response at once, or a tile query first.
pub enum Step {
    Respond(Response),
    Query(TileQuery),
}

/// The cross-origin headers that every response carries.
pub open spec fn has_cors(r: Response) -> bool {
    &&& r.headers@.len() == 2
    &&& r.headers@[0].name@ == "Access-Control-Allow-Origin"@
    &&& r.headers@[0].value@ == "*"@
    &&& r.headers@[1].name@ == "Access-Control-Allow-Methods"@
    &&& r.headers@[1].value@ == "GET"@
}

pub open spec fn status_text(status: u16) -> Seq<char> {
    if status == NOT_FOUND {
        "not found"@
    } else if status == BAD_REQUEST {
        "malformed coordinate"@
    } else if status == UNAVAILABLE {
        "service unavailable"@
    } else {
        "query failed"@
    }
}

/// A plain-text error response with the given status.
pub open spec fn is_error(r: Response, status: u16) -> bool {
    &&& r.status == status
    &&& r.content_type == ContentType::Text
    &&& r.body matches Body::Text(t) && t@ == status_text(status)
    &&& has_cors(r)
}

pub open spec fn is_index(r: Response) -> bool {
    &&& r.status == OK
    &&& r.content_type == ContentType::Json
    &&& r.body matches Body::Bytes(b) && b@ == seq![123u8, 125u8]
    &&& has_cors(r)
}

/// `{base}/{name}/{z}/{x}/{y}.pbf`, the placeholders written as they stand.
pub open spec fn tile_template(base: Seq<char>, name: Seq<char>) -> Seq<char> {
    base + "/"@ + name + "/{z}/{x}/{y}.pbf"@
}

pub open spec fn is_tilejson(r: Response, sets: Seq<Tileset>, name: Seq<char>, base: Seq<char>) -> bool {
    match lookup(sets, name) {
        None => is_error(r, NOT_FOUND),
        Some(t) => {
            &&& r.status == OK
            &&& r.content_type == ContentType::Json
            &&& r.body matches Body::TileJson(d) && {
                &&& d.name@ == name
                &&& d.description == t.description
                &&& d.attribution == t.attribution
                &&& d.minzoom == t.minzoom
                &&& d.maxzoom == t.maxzoom
                &&& d.bounds == t.bounds
                &&& d.tiles@.len() == 1
                &&& d.tiles@[0]@ == tile_template(base, name)
            }
            &&& has_cors(r)
        },
    }
}

/// A coordinate as the tile route captured it is usable.
pub open spec fn coord_ok(s: Seq<char>) -> bool {
    s.len() > 0 && all_digits(s) && digits_value(s) <= u32::MAX
}

/// What a tile request leads to, before any query is run: an unknown
/// tileset is not found, a malformed coordinate a bad request, a zoom outside
/// the tileset's range not found; otherwise the tileset's query.
pub open spec fn is_tile_step(
    step: Step,
    sets: Seq<Tileset>,
    name: Seq<char>,
    z: Seq<char>,
    x: Seq<char>,
    y: Seq<char>,
) -> bool {
    match lookup(sets, name) {
        None => step matches Step::Respond(r) && is_error(r, NOT_FOUND),
        Some(t) => if !(coord_ok(z) && coord_ok(x) && coord_ok(y)) {
            step matches Step::Respond(r) && is_error(r, BAD_REQUEST)
        } else if !(t.minzoom <= digits_value(z) && digits_value(z) <= t.maxzoom) {
            step matches Step::Respond(r) && is_error(r, NOT_FOUND)
        } else {
            step matches Step::Query(q) && {
                &&& q.sql@ == t.tile_query@
                &&& q.z == digits_value(z)
                &&& q.x == digits_value(x)
                &&& q.y == digits_value(y)
            }
        },
    }
}

/// The response for what the tile query gave.
pub open spec fn is_tile_response(r: Response, outcome: QueryOutcome) -> bool {
    match outcome {
        QueryOutcome::Unavailable => is_error(r, UNAVAILABLE),
        QueryOutcome::Failed => is_error(r, INTERNAL_ERROR),
        QueryOutcome::Tile(bytes) => {
            &&& r.content_type == ContentType::Protobuf
            &&& has_cors(r)
            &&& if bytes@.len() == 0 {
                r.status == NO_CONTENT && r.body is Empty
            } else {
                r.status == OK && (r.body matches Body::Bytes(b) && b@ == bytes@)
            }
        },
    }
}

fn cors_headers() -> (r: Vec<Header>)
    ensures
        r@.len() == 2,
        r@[0].name@ == "Access-Control-Allow-Origin"@,
        r@[0].value@ == "*"@,
        r@[1].name@ == "Access-Control-Allow-Methods"@,
        r@[1].value@ == "GET"@,
{
    let mut r: Vec<Header> = Vec::new();
    r.push(
        Header {
            name: String::from_str("Access-Control-Allow-Origin"),
            value: String::from_str("*"),
        },
    );
    r.push(
        Header { name: String::from_str("Access-Control-Allow-Methods"), value: String::from_str("GET") },
    );
    r
}

/// A response with the cross-origin headers added.
pub fn finish(status: u16, content_type: ContentType, body: Body) -> (r: Response)
    ensures
        r.status == status,
        r.content_type == content_type,
        r.body == body,
        has_cors(r),
{
    Response { status, content_type, body, headers: cors_headers() }
}

/// A plain-text error response.
pub fn error(status: u16) -> (r: Response)
    requires
        status == NOT_FOUND || status == BAD_REQUEST || status == UNAVAILABLE || status
            == INTERNAL_ERROR,
    ensures
        is_error(r, status),
{
    let text = if status == NOT_FOUND {
        String::from_str("not found")
    } else if status == BAD_REQUEST {
        String::from_str("malformed coordinate")
    } else if status == UNAVAILABLE {
        String::from_str("service unavailable")
    } else {
        String::from_str("query failed")
    };
    finish(status, ContentType::Text, Body::Text(text))
}

/// `GET /index.json`: always the empty JSON object.
pub fn index() -> (r: Response)
    ensures
        is_index(r),
{
    let body: Vec<u8> = vec![123u8, 125u8];
    assert(body@ =~= seq![123u8, 125u8]);
    finish(OK, ContentType::Json, Body::Bytes(body))
}

fn copy_text(o: &Option<String>) -> (r: Option<String>)
    ensures
        r == *o,
{
    match o {
        Some(s) => Some(s.clone()),
        None => None,
    }
}

fn template(base: &str, name: &str) -> (r: String)
    ensures
        r@ == tile_template(base@, name@),
{
    let mut r = String::from_str(base);
    r.append("/");
    r.append(name);
    r.append("/{z}/{x}/{y}.pbf");
    r
}

/// `GET /{name}.json`: the tileset's TileJSON, its tile URLs under `base`
/// (the scheme and host the request came to).
pub fn tilejson(sets: &Tilesets, name: &str, base: &str) -> (r: Response)
    requires
        sets.wf(),
    ensures
        is_tilejson(r, sets@, name@, base@),
{
    match sets.get(name) {
        None => error(NOT_FOUND),
        Some(t) => {
            let mut tiles: Vec<String> = Vec::new();
            tiles.push(template(base, name));
            let doc = TileJson {
                name: String::from_str(name),
                description: copy_text(&t.description),
                attribution: copy_text(&t.attribution),
                minzoom: t.minzoom,
                maxzoom: t.maxzoom,
                bounds: t.bounds,
                tiles,
            };
            finish(OK, ContentType::Json, Body::TileJson(doc))
        },
    }
}

/// `GET /{name}/{z}/{x}/{y}.pbf`, up to the query: checks the tileset, the
/// coordinates and the zoom range, and names the query to run.
pub fn plan_tile(sets: &Tilesets, name: &str, z: &str, x: &str, y: &str) -> (r: Step)
    requires
        sets.wf(),
    ensures
        is_tile_step(r, sets@, name@, z@, x@, y@),
{
    let t = match sets.get(name) {
        None => return Step::Respond(error(NOT_FOUND)),
        Some(t) => t,
    };
    let (zv, xv, yv) = match (parse_coord(z), parse_coord(x), parse_coord(y)) {
        (Some(zv), Some(xv), Some(yv)) => (zv, xv, yv),
        _ => return Step::Respond(error(BAD_REQUEST)),
    };
    if !((t.minzoom as u32) <= zv && zv <= (t.maxzoom as u32)) {
        return Step::Respond(error(NOT_FOUND));
    }
    Step::Query(TileQuery { sql: t.tile_query.clone(), z: zv, x: xv, y: yv })
}

/// The response to a tile request once its query has run: the bytes as they
/// came, an empty tile when there were none, or the failure's status.
pub fn tile_response(outcome: QueryOutcome) -> (r: Response)
    ensures
        is_tile_response(r, outcome),
{
    match outcome {
        QueryOutcome::Unavailable => error(UNAVAILABLE),
        QueryOutcome::Failed => error(INTERNAL_ERROR),
        QueryOutcome::Tile(bytes) => {
            if bytes.len() == 0 {
                finish(NO_CONTENT, ContentType::Protobuf, Body::Empty)
            } else {
                finish(OK, ContentType::Protobuf, Body::Bytes(bytes))
            }
        },
    }
}

/// Answers a request path: the first route that takes it, then that route's
/// handler. `base` is the scheme and host the request came to.
pub fn dispatch(sets: &Tilesets, path: &str, base: &str) -> (r: Step)
    requires
        sets.wf(),
    ensures
        path@ == index_path() ==> (r matches Step::Respond(resp) && is_index(resp)),
        forall|n: Seq<char>|
            valid_name(n) && path@ == #[trigger] tilejson_path(n) && path@ != index_path() ==> (
            r matches Step::Respond(resp) && is_tilejson(resp, sets@, n, base@)),
        forall|n: Seq<char>, z: Seq<char>, x: Seq<char>, y: Seq<char>|
            tile_parts_ok(n, z, x, y) && path@ == #[trigger] tile_path(n, z, x, y) ==> is_tile_step(
                r,
                sets@,
                n,
                z,
                x,
                y,
            ),
        !(path@ == index_path() || matches_tilejson(path@) || matches_tile(path@)) ==> (
        r matches Step::Respond(resp) && is_error(resp, NOT_FOUND)),
{
    match route(path) {
        Route::Index => {
            assert forall|n: Seq<char>, z: Seq<char>, x: Seq<char>, y: Seq<char>|
                tile_parts_ok(n, z, x, y) && path@ == #[trigger] tile_path(n, z, x, y) implies false by {
                lemma_routes_disjoint(n, n, z, x, y);
            }
            Step::Respond(index())
        },
        Route::TileJson { tileset } => {
            assert forall|n: Seq<char>|
                valid_name(n) && path@ == #[trigger] tilejson_path(n) implies n == tileset@ by {
                lemma_tilejson_path_unique(n, tileset@);
            }
            assert forall|n: Seq<char>, z: Seq<char>, x: Seq<char>, y: Seq<char>|
                tile_parts_ok(n, z, x, y) && path@ == #[trigger] tile_path(n, z, x, y) implies false by {
                lemma_routes_disjoint(tileset@, n, z, x, y);
            }
            Step::Respond(tilejson(sets, tileset.as_str(), base))
        },
        Route::Tile { tileset, z, x, y } => {
            assert forall|n: Seq<char>, zz: Seq<char>, xx: Seq<char>, yy: Seq<char>|
                tile_parts_ok(n, zz, xx, yy) && path@ == #[trigger] tile_path(
                    n,
                    zz,
                    xx,
                    yy,
                ) implies n == tileset@ && zz == z@ && xx == x@ && yy == y@ by {
                lemma_tile_path_unique(n, zz, xx, yy, tileset@, z@, x@, y@);
            }
            plan_tile(sets, tileset.as_str(), z.as_str(), x.as_str(), y.as_str())
        },
        Route::NotFound => Step::Respond(error(NOT_FOUND)),
    }
}

} // verus!
