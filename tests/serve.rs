use tileserver::route::{route, Route};
use tileserver::serve::{
    dispatch, index, plan_tile, tile_response, tilejson, Body, ContentType, QueryOutcome, Response,
    Step,
};
use tileserver::text::parse_coord;
use tileserver::tileset::{Bounds, LoadError, Tileset, Tilesets};

const BASE: &str = "http://localhost:3000";

fn tileset(name: &str, minzoom: u8, maxzoom: u8) -> Tileset {
    Tileset {
        name: name.to_string(),
        minzoom,
        maxzoom,
        bounds: Bounds { west: -180, south: -90, east: 180, north: 90 },
        attribution: Some("OpenStreetMap".to_string()),
        description: None,
        tile_query: format!("SELECT mvt FROM {}_tiles($1, $2, $3)", name),
    }
}

fn registry() -> Tilesets {
    Tilesets::load(vec![tileset("roads", 0, 14), tileset("water.lines", 2, 10)]).unwrap()
}

fn respond(step: Step) -> Response {
    match step {
        Step::Respond(r) => r,
        Step::Query(_) => panic!("expected a response"),
    }
}

fn has_cors(r: &Response) -> bool {
    r.headers.len() == 2
        && r.headers[0].name == "Access-Control-Allow-Origin"
        && r.headers[0].value == "*"
        && r.headers[1].name == "Access-Control-Allow-Methods"
        && r.headers[1].value == "GET"
}

fn text_of(r: &Response) -> String {
    match &r.body {
        Body::Text(t) => t.clone(),
        _ => panic!("expected a text body"),
    }
}

#[test]
fn test_index() {
    let reg = registry();
    let response = respond(dispatch(&reg, "/index.json", BASE));
    match response.body {
        Body::Bytes(b) => assert_eq!(b, b"{}".to_vec()),
        _ => panic!("expected bytes"),
    }
}

#[test]
fn index_is_empty_object_whatever_the_registry() {
    let empty = Tilesets::load(vec![]).unwrap();
    for reg in [registry(), empty] {
        let r = respond(dispatch(&reg, "/index.json", BASE));
        assert_eq!(r.status, 200);
        assert_eq!(r.content_type, ContentType::Json);
        assert!(has_cors(&r));
        assert!(matches!(r.body, Body::Bytes(ref b) if b == b"{}"));
    }
    assert!(matches!(index().body, Body::Bytes(ref b) if b == b"{}"));
}

#[test]
fn routes_in_order() {
    assert!(matches!(route("/index.json"), Route::Index));
    assert!(matches!(route("/roads.json"), Route::TileJson { ref tileset } if tileset == "roads"));
    assert!(matches!(route("/a.b.json"), Route::TileJson { ref tileset } if tileset == "a.b"));
    assert!(matches!(route("/.json"), Route::TileJson { ref tileset } if tileset.is_empty()));
    match route("/roads/3/4/5.pbf") {
        Route::Tile { tileset, z, x, y } => {
            assert_eq!((tileset.as_str(), z.as_str(), x.as_str(), y.as_str()), ("roads", "3", "4", "5"));
        }
        _ => panic!("expected a tile route"),
    }
    match route("/roads///.pbf") {
        Route::Tile { tileset, z, x, y } => {
            assert_eq!(tileset, "roads");
            assert!(z.is_empty() && x.is_empty() && y.is_empty());
        }
        _ => panic!("expected a tile route"),
    }
}

#[test]
fn unmatched_paths_are_not_found() {
    for p in ["", "/", "/roads", "/ro-ads.json", "/roads/1/2.pbf", "/roads/1/2/3/4.pbf", "/roads/a/2/3.pbf", "roads.json", "/roads/1/2/3.png"] {
        assert!(matches!(route(p), Route::NotFound), "{}", p);
        let r = respond(dispatch(&registry(), p, BASE));
        assert_eq!(r.status, 404);
        assert!(has_cors(&r));
    }
}

#[test]
fn coordinates_parse() {
    assert_eq!(parse_coord(""), None);
    assert_eq!(parse_coord("0"), Some(0));
    assert_eq!(parse_coord("012"), Some(12));
    assert_eq!(parse_coord("4294967295"), Some(4294967295));
    assert_eq!(parse_coord("4294967296"), None);
    assert_eq!(parse_coord("1a"), None);
}

#[test]
fn load_rejects_bad_rows() {
    assert_eq!(Tilesets::load(vec![tileset("a", 0, 1), tileset("b c", 0, 1)]).err(), Some(LoadError::InvalidName { index: 1 }));
    assert_eq!(Tilesets::load(vec![tileset("a", 5, 4)]).err(), Some(LoadError::InvalidZoom { index: 0 }));
    assert_eq!(Tilesets::load(vec![tileset("a", 0, 31)]).err(), Some(LoadError::InvalidZoom { index: 0 }));
    assert_eq!(Tilesets::load(vec![tileset("a", 0, 1), tileset("b", 0, 1), tileset("a", 0, 2)]).err(), Some(LoadError::DuplicateName { index: 2 }));
    assert_eq!(Tilesets::load(vec![tileset("a", 0, 30), tileset("", 3, 3)]).unwrap().len(), 2);
}

#[test]
fn lookup_finds_by_name() {
    let reg = registry();
    assert_eq!(reg.get("water.lines").unwrap().minzoom, 2);
    assert!(reg.get("water").is_none());
}

#[test]
fn known_tileset_tilejson() {
    let reg = registry();
    let r = respond(dispatch(&reg, "/water.lines.json", BASE));
    assert_eq!(r.status, 200);
    assert_eq!(r.content_type, ContentType::Json);
    assert!(has_cors(&r));
    match r.body {
        Body::TileJson(d) => {
            assert_eq!(d.name, "water.lines");
            assert_eq!(d.tiles, vec!["http://localhost:3000/water.lines/{z}/{x}/{y}.pbf".to_string()]);
            for p in ["{z}", "{x}", "{y}"] {
                assert!(d.tiles[0].contains(p));
            }
            assert_eq!((d.minzoom, d.maxzoom), (2, 10));
            assert_eq!(d.attribution, Some("OpenStreetMap".to_string()));
            assert_eq!(d.description, None);
            assert_eq!(d.bounds, Bounds { west: -180, south: -90, east: 180, north: 90 });
        }
        _ => panic!("expected a TileJSON body"),
    }
}

#[test]
fn unknown_tileset_not_found() {
    let reg = registry();
    let a = respond(dispatch(&reg, "/rivers.json", BASE));
    let b = respond(dispatch(&reg, "/rivers/1/0/0.pbf", BASE));
    assert_eq!((a.status, b.status), (404, 404));
    assert_eq!(text_of(&a), "not found");
    assert_eq!(tilejson(&reg, "rivers", BASE).status, 404);
}

#[test]
fn zoom_out_of_range_is_not_found_each_time() {
    let reg = registry();
    for _ in 0..2 {
        let r = respond(dispatch(&reg, "/roads/20/0/0.pbf", BASE));
        assert_eq!(r.status, 404);
        assert_eq!(text_of(&r), "not found");
        assert!(has_cors(&r));
    }
    assert_eq!(respond(dispatch(&reg, "/water.lines/1/0/0.pbf", BASE)).status, 404);
}

#[test]
fn malformed_coordinate_is_bad_request() {
    let reg = registry();
    for p in ["/roads//0/0.pbf", "/roads/1//0.pbf", "/roads/1/0/.pbf", "/roads/1/0/99999999999.pbf"] {
        let r = respond(dispatch(&reg, p, BASE));
        assert_eq!(r.status, 400, "{}", p);
        assert_eq!(text_of(&r), "malformed coordinate");
    }
}

#[test]
fn tile_in_range_names_its_query() {
    let reg = registry();
    match dispatch(&reg, "/roads/14/8190/5447.pbf", BASE) {
        Step::Query(q) => {
            assert_eq!(q.sql, "SELECT mvt FROM roads_tiles($1, $2, $3)");
            assert_eq!((q.z, q.x, q.y), (14, 8190, 5447));
        }
        Step::Respond(_) => panic!("expected a query"),
    }
    assert!(matches!(plan_tile(&reg, "roads", "0", "0", "0"), Step::Query(_)));
}

#[test]
fn tile_responses() {
    let r = tile_response(QueryOutcome::Tile(vec![0x1a, 0x02, 0x08, 0x01]));
    assert_eq!((r.status, r.content_type), (200, ContentType::Protobuf));
    assert!(matches!(r.body, Body::Bytes(ref b) if b == &vec![0x1a, 0x02, 0x08, 0x01]));
    let e = tile_response(QueryOutcome::Tile(vec![]));
    assert_eq!(e.status, 204);
    assert!(matches!(e.body, Body::Empty));
    let f = tile_response(QueryOutcome::Failed);
    assert_eq!((f.status, text_of(&f)), (500, "query failed".to_string()));
    let u = tile_response(QueryOutcome::Unavailable);
    assert_eq!((u.status, text_of(&u)), (503, "service unavailable".to_string()));
    for resp in [r, e, f, u] {
        assert!(has_cors(&resp));
    }
}

#[test]
fn same_tile_twice_same_bytes() {
    let reg = registry();
    let mut bodies = Vec::new();
    for _ in 0..2 {
        let q = match dispatch(&reg, "/roads/3/1/2.pbf", BASE) {
            Step::Query(q) => q,
            Step::Respond(_) => panic!("expected a query"),
        };
        assert_eq!((q.z, q.x, q.y), (3, 1, 2));
        let bytes = vec![q.z as u8, q.x as u8, q.y as u8];
        match tile_response(QueryOutcome::Tile(bytes)).body {
            Body::Bytes(b) => bodies.push(b),
            _ => panic!("expected bytes"),
        }
    }
    assert_eq!(bodies[0], bodies[1]);
}
