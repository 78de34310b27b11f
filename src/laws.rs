use vstd::prelude::*;

use crate::serve::{
    coord_ok, has_cors, is_error, is_index, is_tile_response, is_tile_step, is_tilejson, tile_template, Body,
    QueryOutcome, Response, Step, NOT_FOUND, OK,
};
use crate::text::digits_value;
use crate::tileset::{has_name, lookup, Tileset};

verus! {

/// `sub` stands somewhere in `s`.
pub open spec fn contains(s: Seq<char>, sub: Seq<char>) -> bool {
    exists|i: int| 0 <= i && i + sub.len() <= s.len() && #[trigger] s.subrange(i, i + sub.len()) == sub
}

proof fn lemma_template_placeholders(base: Seq<char>, name: Seq<char>)
    ensures
        contains(tile_template(base, name), "{z}"@),
        contains(tile_template(base, name), "{x}"@),
        contains(tile_template(base, name), "{y}"@),
{
    reveal_strlit("/");
    reveal_strlit("/{z}/{x}/{y}.pbf");
    reveal_strlit("{z}");
    reveal_strlit("{x}");
    reveal_strlit("{y}");
    let t = tile_template(base, name);
    let k: int = base.len() + 1 + name.len() as int;
    assert(t.subrange(k + 1, k + 1 + "{z}"@.len()) =~= "{z}"@);
    assert(t.subrange(k + 5, k + 5 + "{x}"@.len()) =~= "{x}"@);
    assert(t.subrange(k + 9, k + 9 + "{y}"@.len()) =~= "{y}"@);
}

/// The TileJSON of a tileset that the registry holds comes with status 200,
/// is named as asked, and its first tile URL holds the `{z}`, `{x}` and `{y}`
/// placeholders.
pub proof fn law_known_tileset_tilejson(
    sets: Seq<Tileset>,
    name: Seq<char>,
    base: Seq<char>,
    r: Response,
)
    requires
        has_name(sets, name),
        is_tilejson(r, sets, name, base),
    ensures
        r.status == OK,
        r.body matches Body::TileJson(d) && {
            &&& d.name@ == name
            &&& d.tiles@.len() >= 1
            &&& contains(d.tiles@[0]@, "{z}"@)
            &&& contains(d.tiles@[0]@, "{x}"@)
            &&& contains(d.tiles@[0]@, "{y}"@)
        },
{
    lemma_template_placeholders(base, name);
}

/// A tileset that the registry lacks is not found, whether its TileJSON or
/// one of its tiles is asked for.
pub proof fn law_unknown_tileset_not_found(
    sets: Seq<Tileset>,
    name: Seq<char>,
    base: Seq<char>,
    z: Seq<char>,
    x: Seq<char>,
    y: Seq<char>,
    doc: Response,
    step: Step,
)
    requires
        !has_name(sets, name),
        is_tilejson(doc, sets, name, base),
        is_tile_step(step, sets, name, z, x, y),
    ensures
        doc.status == NOT_FOUND,
        step matches Step::Respond(r) && r.status == NOT_FOUND,
{
}

/// The index answer is the same whatever the registry holds: status 200 and
/// the body `{}`.
pub proof fn law_index_fixed(r1: Response, r2: Response)
    requires
        is_index(r1),
        is_index(r2),
    ensures
        r1.status == OK && r2.status == OK,
        r1.body matches Body::Bytes(b1) && r2.body matches Body::Bytes(b2) && b1@ == b2@ && b1@
            == seq![123u8, 125u8],
{
}

/// A tile request at a zoom outside its tileset's range is not found, each
/// time it is made, with the same answer.
pub proof fn law_zoom_out_of_range(
    sets: Seq<Tileset>,
    name: Seq<char>,
    z: Seq<char>,
    x: Seq<char>,
    y: Seq<char>,
    s1: Step,
    s2: Step,
)
    requires
        lookup(sets, name) matches Some(t) && (digits_value(z) < t.minzoom || t.maxzoom
            < digits_value(z)),
        coord_ok(z) && coord_ok(x) && coord_ok(y),
        is_tile_step(s1, sets, name, z, x, y),
        is_tile_step(s2, sets, name, z, x, y),
    ensures
        s1 matches Step::Respond(r1) && s2 matches Step::Respond(r2) && r1.status == NOT_FOUND
            && r2.status == NOT_FOUND && (r1.body matches Body::Text(t1)
            && r2.body matches Body::Text(t2) && t1@ == t2@),
{
}

/// Every response that a request leads to carries the cross-origin headers.
pub proof fn law_responses_carry_cors(
    sets: Seq<Tileset>,
    name: Seq<char>,
    base: Seq<char>,
    z: Seq<char>,
    x: Seq<char>,
    y: Seq<char>,
    index: Response,
    doc: Response,
    step: Step,
    outcome: QueryOutcome,
    tile: Response,
    failure: Response,
    status: u16,
)
    requires
        is_index(index),
        is_tilejson(doc, sets, name, base),
        is_tile_step(step, sets, name, z, x, y),
        is_tile_response(tile, outcome),
        is_error(failure, status),
    ensures
        has_cors(index),
        has_cors(doc),
        step matches Step::Respond(r) ==> has_cors(r),
        has_cors(tile),
        has_cors(failure),
{
}

/// The same tile asked for twice, over the same data, gets the same query
/// and the same bytes back.
pub proof fn law_same_tile_same_bytes(
    sets: Seq<Tileset>,
    name: Seq<char>,
    z: Seq<char>,
    x: Seq<char>,
    y: Seq<char>,
    s1: Step,
    s2: Step,
    bytes1: Vec<u8>,
    bytes2: Vec<u8>,
    r1: Response,
    r2: Response,
)
    requires
        is_tile_step(s1, sets, name, z, x, y),
        is_tile_step(s2, sets, name, z, x, y),
        bytes1@ == bytes2@,
        is_tile_response(r1, QueryOutcome::Tile(bytes1)),
        is_tile_response(r2, QueryOutcome::Tile(bytes2)),
    ensures
        s1 matches Step::Query(q1) ==> (s2 matches Step::Query(q2) && q1.sql@ == q2.sql@ && q1.z
            == q2.z && q1.x == q2.x && q1.y == q2.y),
        r1.status == r2.status,
        r1.body matches Body::Bytes(b1) ==> (r2.body matches Body::Bytes(b2) && b1@ == b2@
            && b1@ == bytes1@),
        r1.body is Empty <==> r2.body is Empty,
{
}

} // verus!
