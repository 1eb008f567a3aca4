//! The schema of a TopoJSON topology: the property names of the members of
//! its single object, each once in first-appearance order, then the
//! geometry column. A topology is only accepted when its transform, its
//! arcs and every member's geometry are well formed, and every arc a
//! geometry refers to exists.
use vstd::prelude::*;
use vstd::string::StringSliceAdditionalSpecFns;
use vstd::utf8::*;

use crate::codes;
use crate::diagnostic::{code_text, Diagnostic, DiagnosticView};
use crate::format::{str_from_utf8, utf8_error_text_of};
use crate::geo::{geo_error, geo_error_view, geom_column};
use crate::readers::{column_set_items, column_set_names, key_union, new_column_set, union_keys};
use crate::severity::Severity;
use crate::span::Span;
use crate::json::{
    entries_in, entries_of, entry_names, get_member, items_in, items_of, member, names_of_entries,
    text_in, text_of, JsonNode,
};
use crate::text::{
    copy_str, joined, push_joined, push_signed_decimal, push_str, signed_decimal, str_eq,
    strings_view,
};

verus! {

pub open spec fn fault_view(fault: Option<String>) -> Option<Seq<char>> {
    match fault {
        Some(m) => Some(m@),
        None => None,
    }
}

/// The first fault of a sequence of checks, in order.
pub open spec fn first_fault(faults: Seq<Option<Seq<char>>>) -> Option<Seq<char>>
    decreases faults.len(),
{
    if faults.len() == 0 {
        None
    } else {
        match first_fault(faults.drop_last()) {
            Some(m) => Some(m),
            None => faults.last(),
        }
    }
}

proof fn lemma_first_fault_step(faults: Seq<Option<Seq<char>>>, i: int)
    requires
        0 <= i < faults.len(),
    ensures
        first_fault(faults.take(i + 1)) == (match first_fault(faults.take(i)) {
            Some(m) => Some(m),
            None => faults[i],
        }),
{
    assert(faults.take(i + 1).drop_last() =~= faults.take(i));
}

proof fn lemma_first_fault_prefix(faults: Seq<Option<Seq<char>>>, i: int)
    requires
        0 <= i <= faults.len(),
        first_fault(faults.take(i)) is Some,
    ensures
        first_fault(faults) == first_fault(faults.take(i)),
    decreases faults.len(),
{
    if i == faults.len() {
        assert(faults.take(i) =~= faults);
    } else {
        let shorter = faults.drop_last();
        assert(shorter.take(i) =~= faults.take(i));
        lemma_first_fault_prefix(shorter, i);
    }
}

proof fn lemma_first_fault_all(faults: Seq<Option<Seq<char>>>)
    requires
        first_fault(faults.take(faults.len() as int)) is None,
    ensures
        first_fault(faults) is None,
{
    assert(faults.take(faults.len() as int) =~= faults);
}

/// A position: an array of at least two coordinates.
pub open spec fn is_position(node: JsonNode) -> bool {
    node matches JsonNode::Array(xy) && xy@.len() >= 2
}

/// An array of fewer than two values.
pub open spec fn is_short_array(node: JsonNode) -> bool {
    node matches JsonNode::Array(xy) && xy@.len() < 2
}

/// Every item is a position.
pub open spec fn all_positions(items: Seq<JsonNode>) -> bool {
    forall|k: int| 0 <= k < items.len() ==> is_position(#[trigger] items[k])
}

/// Some item is an array of fewer than two values.
pub open spec fn any_short_array(items: Seq<JsonNode>) -> bool {
    exists|k: int| 0 <= k < items.len() && is_short_array(#[trigger] items[k])
}

/// What is wrong with one arc of the topology, if anything.
pub open spec fn arc_fault(arc: JsonNode) -> Option<Seq<char>> {
    match arc {
        JsonNode::Array(positions) => if all_positions(positions@) {
            None
        } else {
            Some("TopoJSON arc position must be [x, y]"@)
        },
        _ => Some("TopoJSON arc must be an array"@),
    }
}

pub open spec fn arc_faults(arcs: Seq<JsonNode>) -> Seq<Option<Seq<char>>> {
    arcs.map_values(|arc: JsonNode| arc_fault(arc))
}

/// The arc that an arc index names: `i` itself, or for a negative `i` the
/// arc `-i - 1` walked backwards.
pub open spec fn arc_reference(raw: int) -> int {
    if raw < 0 {
        -raw - 1
    } else {
        raw
    }
}

/// What is wrong with one arc index, given how many arcs there are.
pub open spec fn index_fault(index: JsonNode, arc_count: nat) -> Option<Seq<char>> {
    match index {
        JsonNode::Number(Some(raw)) => if arc_reference(raw as int) < arc_count {
            None
        } else {
            Some("TopoJSON arc index "@ + signed_decimal(raw as int) + " out of range"@)
        },
        _ => Some("TopoJSON arc index must be an integer"@),
    }
}

pub open spec fn index_faults(list: Seq<JsonNode>, arc_count: nat) -> Seq<Option<Seq<char>>> {
    list.map_values(|index: JsonNode| index_fault(index, arc_count))
}

/// What is wrong with a list of arc indexes (a line, or a polygon ring).
pub open spec fn line_fault(line: JsonNode, arc_count: nat, not_array: Seq<char>) -> Option<Seq<char>> {
    match line {
        JsonNode::Array(list) => first_fault(index_faults(list@, arc_count)),
        _ => Some(not_array),
    }
}

pub open spec fn line_faults(lines: Seq<JsonNode>, arc_count: nat, not_array: Seq<char>) -> Seq<
    Option<Seq<char>>,
> {
    lines.map_values(|line: JsonNode| line_fault(line, arc_count, not_array))
}

/// What is wrong with the rings of one polygon of a multi-polygon.
pub open spec fn polygon_fault(rings: JsonNode, arc_count: nat) -> Option<Seq<char>> {
    match rings {
        JsonNode::Array(list) => first_fault(
            line_faults(list@, arc_count, "TopoJSON polygon ring must be an array"@),
        ),
        _ => Some("TopoJSON polygon rings must be arrays"@),
    }
}

pub open spec fn polygon_faults(polygons: Seq<JsonNode>, arc_count: nat) -> Seq<Option<Seq<char>>> {
    polygons.map_values(|rings: JsonNode| polygon_fault(rings, arc_count))
}

/// What is wrong with the geometry of one member, if anything. A member
/// without a `type` has a null geometry.
pub open spec fn geometry_fault(node: JsonNode, arc_count: nat) -> Option<Seq<char>> {
    match text_of(member(node, "type"@)) {
        None => None,
        Some(kind) => if kind == "Point"@ {
            if items_of(member(node, "coordinates"@)) matches Some(xy) && xy.len() >= 2 {
                None
            } else {
                Some("TopoJSON point coordinates must be [x, y]"@)
            }
        } else if kind == "MultiPoint"@ {
            match items_of(member(node, "coordinates"@)) {
                None => Some("TopoJSON coordinates must be an array"@),
                Some(points) => if any_short_array(points) {
                    Some("TopoJSON point must have x and y"@)
                } else {
                    None
                },
            }
        } else if kind == "LineString"@ {
            match items_of(member(node, "arcs"@)) {
                None => Some("TopoJSON geometry has no `arcs`"@),
                Some(list) => first_fault(index_faults(list, arc_count)),
            }
        } else if kind == "MultiLineString"@ {
            match items_of(member(node, "arcs"@)) {
                None => Some("TopoJSON geometry has no `arcs`"@),
                Some(lines) => first_fault(
                    line_faults(lines, arc_count, "TopoJSON line arcs must be an array"@),
                ),
            }
        } else if kind == "Polygon"@ {
            match items_of(member(node, "arcs"@)) {
                None => Some("TopoJSON geometry has no `arcs`"@),
                Some(rings) => first_fault(
                    line_faults(rings, arc_count, "TopoJSON polygon ring must be an array"@),
                ),
            }
        } else if kind == "MultiPolygon"@ {
            match items_of(member(node, "arcs"@)) {
                None => Some("TopoJSON MultiPolygon has no `arcs`"@),
                Some(polygons) => first_fault(polygon_faults(polygons, arc_count)),
            }
        } else {
            Some("unsupported TopoJSON geometry type `"@ + kind + "`"@)
        },
    }
}

pub open spec fn member_faults(members: Seq<JsonNode>, arc_count: nat) -> Seq<Option<Seq<char>>> {
    members.map_values(|m: JsonNode| geometry_fault(m, arc_count))
}

/// The rows of the selected object: the geometries of a geometry
/// collection, or the object itself.
pub open spec fn members_of(object: JsonNode) -> Seq<JsonNode> {
    if text_of(member(object, "type"@)) == Some("GeometryCollection"@) {
        match items_of(member(object, "geometries"@)) {
            Some(geometries) => geometries,
            None => Seq::empty(),
        }
    } else {
        seq![object]
    }
}

/// The names of a member's properties, in order.
pub open spec fn property_names(node: JsonNode) -> Seq<Seq<char>> {
    match entries_of(member(node, "properties"@)) {
        Some(entries) => entry_names(entries),
        None => Seq::empty(),
    }
}

/// The property columns of the members, each once, in first-appearance order.
pub open spec fn members_columns(members: Seq<JsonNode>) -> Seq<Seq<char>>
    decreases members.len(),
{
    if members.len() == 0 {
        Seq::empty()
    } else {
        key_union(members_columns(members.drop_last()), property_names(members.last()))
    }
}

/// A member named `key` that is an array of exactly two values.
pub open spec fn is_pair(node: JsonNode, key: Seq<char>) -> bool {
    items_of(member(node, key)) matches Some(xy) && xy.len() == 2
}

/// What is wrong with the topology's `transform`, if anything.
pub open spec fn transform_fault(transform: Option<JsonNode>) -> Option<Seq<char>> {
    match transform {
        None => None,
        Some(t) => if !is_pair(t, "scale"@) {
            Some("TopoJSON transform `scale` must be [x, y]"@)
        } else if !is_pair(t, "translate"@) {
            Some("TopoJSON transform `translate` must be [x, y]"@)
        } else {
            None
        },
    }
}

/// The refusal of a topology with more than one object.
pub open spec fn multiple_objects_view(names: Seq<Seq<char>>) -> DiagnosticView {
    DiagnosticView {
        severity: Severity::Error,
        code: code_text(0, 1821),
        message: "TopoJSON topology defines multiple objects ("@ + joined(names, ", "@)
            + "); explicit object selection is not available in this release"@,
        span: Span { start: 0, end: 0 },
        related: Seq::empty(),
        help: None,
    }
}

/// What the schema of a parsed TopoJSON document is: its columns, or the
/// first fault found, checking the document kind, the transform, the
/// arcs, the objects and then each member in turn.
pub open spec fn topojson_schema_spec(doc: JsonNode) -> Result<Seq<Seq<char>>, DiagnosticView> {
    if text_of(member(doc, "type"@)) != Some("Topology"@) {
        Err(geo_error_view("expected a TopoJSON document with \"type\": \"Topology\""@))
    } else if transform_fault(member(doc, "transform"@)) is Some {
        Err(geo_error_view(transform_fault(member(doc, "transform"@))->0))
    } else {
        match items_of(member(doc, "arcs"@)) {
            None => Err(geo_error_view("TopoJSON topology has no `arcs` array"@)),
            Some(arcs) => if first_fault(arc_faults(arcs)) is Some {
                Err(geo_error_view(first_fault(arc_faults(arcs))->0))
            } else {
                match entries_of(member(doc, "objects"@)) {
                    None => Err(geo_error_view("TopoJSON topology has no `objects` map"@)),
                    Some(objects) => if objects.len() == 0 {
                        Err(geo_error_view("TopoJSON topology has no objects"@))
                    } else if objects.len() > 1 {
                        Err(multiple_objects_view(entry_names(objects)))
                    } else {
                        let members = members_of(objects[0].1);
                        match first_fault(member_faults(members, arcs.len())) {
                            Some(m) => Err(geo_error_view(m)),
                            None => Ok(members_columns(members).push(geom_column())),
                        }
                    },
                }
            },
        }
    }
}

fn arc_fault_check(arc: &JsonNode) -> (r: Option<String>)
    ensures
        fault_view(r) == arc_fault(*arc),
{
    match arc {
        JsonNode::Array(positions) => {
            let mut i: usize = 0;
            while i < positions.len()
                invariant
                    i <= positions.len(),
                    *arc == JsonNode::Array(*positions),
                    forall|k: int| 0 <= k < i ==> is_position(#[trigger] positions@[k]),
                decreases positions.len() - i,
            {
                let ok = match &positions[i] {
                    JsonNode::Array(xy) => xy.len() >= 2,
                    _ => false,
                };
                if !ok {
                    assert(!is_position(positions@[i as int]));
                    return Some(copy_str("TopoJSON arc position must be [x, y]"));
                }
                i += 1;
            }
            None
        },
        _ => Some(copy_str("TopoJSON arc must be an array")),
    }
}

fn arcs_fault_check(arcs: &Vec<JsonNode>) -> (r: Option<String>)
    ensures
        fault_view(r) == first_fault(arc_faults(arcs@)),
{
    let ghost faults = arc_faults(arcs@);
    let mut i: usize = 0;
    while i < arcs.len()
        invariant
            i <= arcs.len(),
            faults == arc_faults(arcs@),
            first_fault(faults.take(i as int)) is None,
        decreases arcs.len() - i,
    {
        let fault = arc_fault_check(&arcs[i]);
        proof {
            lemma_first_fault_step(faults, i as int);
        }
        if fault.is_some() {
            proof {
                lemma_first_fault_prefix(faults, i + 1);
            }
            return fault;
        }
        i += 1;
    }
    proof {
        lemma_first_fault_all(faults);
    }
    None
}

fn index_fault_check(index: &JsonNode, arc_count: usize) -> (r: Option<String>)
    ensures
        fault_view(r) == index_fault(*index, arc_count as nat),
{
    match index {
        JsonNode::Number(Some(raw)) => {
            let raw: i64 = *raw;
            let reference: u64 = if raw < 0 {
                (-(raw + 1)) as u64
            } else {
                raw as u64
            };
            if (reference as u128) < (arc_count as u128) {
                None
            } else {
                let mut message = copy_str("TopoJSON arc index ");
                push_signed_decimal(&mut message, raw);
                push_str(&mut message, " out of range");
                Some(message)
            }
        },
        _ => Some(copy_str("TopoJSON arc index must be an integer")),
    }
}

fn indices_fault_check(list: &Vec<JsonNode>, arc_count: usize) -> (r: Option<String>)
    ensures
        fault_view(r) == first_fault(index_faults(list@, arc_count as nat)),
{
    let ghost faults = index_faults(list@, arc_count as nat);
    let mut i: usize = 0;
    while i < list.len()
        invariant
            i <= list.len(),
            faults == index_faults(list@, arc_count as nat),
            first_fault(faults.take(i as int)) is None,
        decreases list.len() - i,
    {
        let fault = index_fault_check(&list[i], arc_count);
        proof {
            lemma_first_fault_step(faults, i as int);
        }
        if fault.is_some() {
            proof {
                lemma_first_fault_prefix(faults, i + 1);
            }
            return fault;
        }
        i += 1;
    }
    proof {
        lemma_first_fault_all(faults);
    }
    None
}

fn line_fault_check(line: &JsonNode, arc_count: usize, not_array: &str) -> (r: Option<String>)
    ensures
        fault_view(r) == line_fault(*line, arc_count as nat, not_array@),
{
    match line {
        JsonNode::Array(list) => indices_fault_check(list, arc_count),
        _ => Some(copy_str(not_array)),
    }
}

fn lines_fault_check(lines: &Vec<JsonNode>, arc_count: usize, not_array: &str) -> (r: Option<String>)
    ensures
        fault_view(r) == first_fault(line_faults(lines@, arc_count as nat, not_array@)),
{
    let ghost faults = line_faults(lines@, arc_count as nat, not_array@);
    let mut i: usize = 0;
    while i < lines.len()
        invariant
            i <= lines.len(),
            faults == line_faults(lines@, arc_count as nat, not_array@),
            first_fault(faults.take(i as int)) is None,
        decreases lines.len() - i,
    {
        let fault = line_fault_check(&lines[i], arc_count, not_array);
        proof {
            lemma_first_fault_step(faults, i as int);
        }
        if fault.is_some() {
            proof {
                lemma_first_fault_prefix(faults, i + 1);
            }
            return fault;
        }
        i += 1;
    }
    proof {
        lemma_first_fault_all(faults);
    }
    None
}

fn polygon_fault_check(rings: &JsonNode, arc_count: usize) -> (r: Option<String>)
    ensures
        fault_view(r) == polygon_fault(*rings, arc_count as nat),
{
    match rings {
        JsonNode::Array(list) => lines_fault_check(list, arc_count, "TopoJSON polygon ring must be an array"),
        _ => Some(copy_str("TopoJSON polygon rings must be arrays")),
    }
}

fn polygons_fault_check(polygons: &Vec<JsonNode>, arc_count: usize) -> (r: Option<String>)
    ensures
        fault_view(r) == first_fault(polygon_faults(polygons@, arc_count as nat)),
{
    let ghost faults = polygon_faults(polygons@, arc_count as nat);
    let mut i: usize = 0;
    while i < polygons.len()
        invariant
            i <= polygons.len(),
            faults == polygon_faults(polygons@, arc_count as nat),
            first_fault(faults.take(i as int)) is None,
        decreases polygons.len() - i,
    {
        let fault = polygon_fault_check(&polygons[i], arc_count);
        proof {
            lemma_first_fault_step(faults, i as int);
        }
        if fault.is_some() {
            proof {
                lemma_first_fault_prefix(faults, i + 1);
            }
            return fault;
        }
        i += 1;
    }
    proof {
        lemma_first_fault_all(faults);
    }
    None
}

fn multipoint_fault_check(points: &Vec<JsonNode>) -> (r: Option<String>)
    ensures
        match r {
            Some(m) => m@ == "TopoJSON point must have x and y"@ && any_short_array(points@),
            None => !any_short_array(points@),
        },
{
    let mut i: usize = 0;
    while i < points.len()
        invariant
            i <= points.len(),
            forall|k: int| 0 <= k < i ==> !is_short_array(#[trigger] points@[k]),
        decreases points.len() - i,
    {
        let short = match &points[i] {
            JsonNode::Array(xy) => xy.len() < 2,
            _ => false,
        };
        if short {
            assert(is_short_array(points@[i as int]));
            return Some(copy_str("TopoJSON point must have x and y"));
        }
        i += 1;
    }
    None
}

fn geometry_fault_check(node: &JsonNode, arc_count: usize) -> (r: Option<String>)
    ensures
        fault_view(r) == geometry_fault(*node, arc_count as nat),
{
    let kind = match text_in(get_member(node, "type")) {
        Some(kind) => kind,
        None => return None,
    };
    if str_eq(kind.as_str(), "Point") {
        let ok = match items_in(get_member(node, "coordinates")) {
            Some(xy) => xy.len() >= 2,
            None => false,
        };
        if ok {
            None
        } else {
            Some(copy_str("TopoJSON point coordinates must be [x, y]"))
        }
    } else if str_eq(kind.as_str(), "MultiPoint") {
        match items_in(get_member(node, "coordinates")) {
            None => Some(copy_str("TopoJSON coordinates must be an array")),
            Some(points) => multipoint_fault_check(points),
        }
    } else if str_eq(kind.as_str(), "LineString") {
        match items_in(get_member(node, "arcs")) {
            None => Some(copy_str("TopoJSON geometry has no `arcs`")),
            Some(list) => indices_fault_check(list, arc_count),
        }
    } else if str_eq(kind.as_str(), "MultiLineString") {
        match items_in(get_member(node, "arcs")) {
            None => Some(copy_str("TopoJSON geometry has no `arcs`")),
            Some(lines) => lines_fault_check(lines, arc_count, "TopoJSON line arcs must be an array"),
        }
    } else if str_eq(kind.as_str(), "Polygon") {
        match items_in(get_member(node, "arcs")) {
            None => Some(copy_str("TopoJSON geometry has no `arcs`")),
            Some(rings) => lines_fault_check(rings, arc_count, "TopoJSON polygon ring must be an array"),
        }
    } else if str_eq(kind.as_str(), "MultiPolygon") {
        match items_in(get_member(node, "arcs")) {
            None => Some(copy_str("TopoJSON MultiPolygon has no `arcs`")),
            Some(polygons) => polygons_fault_check(polygons, arc_count),
        }
    } else {
        let mut message = copy_str("unsupported TopoJSON geometry type `");
        push_str(&mut message, kind.as_str());
        push_str(&mut message, "`");
        Some(message)
    }
}

/// Adds a member's property names to `columns` and checks its geometry.
fn add_member(columns: &mut indexmap::IndexSet<String>, node: &JsonNode, arc_count: usize) -> (r: Option<String>)
    ensures
        column_set_items(*final(columns)) == key_union(column_set_items(*old(columns)), property_names(*node)),
        fault_view(r) == geometry_fault(*node, arc_count as nat),
{
    match entries_in(get_member(node, "properties")) {
        Some(entries) => {
            let names = names_of_entries(entries);
            union_keys(columns, &names);
        },
        None => {
            assert(key_union(column_set_items(*columns), Seq::empty()) == column_set_items(*columns));
        },
    }
    geometry_fault_check(node, arc_count)
}

/// Adds the property names of the geometries of a collection to `columns`,
/// stopping at the first faulty geometry.
fn add_members(columns: &mut indexmap::IndexSet<String>, members: &Vec<JsonNode>, arc_count: usize) -> (r: Option<String>)
    requires
        column_set_items(*old(columns)) == Seq::<Seq<char>>::empty(),
    ensures
        fault_view(r) == first_fault(member_faults(members@, arc_count as nat)),
        r is None ==> column_set_items(*final(columns)) == members_columns(members@),
{
    let ghost faults = member_faults(members@, arc_count as nat);
    let mut i: usize = 0;
    while i < members.len()
        invariant
            i <= members.len(),
            faults == member_faults(members@, arc_count as nat),
            first_fault(faults.take(i as int)) is None,
            column_set_items(*columns) == members_columns(members@.take(i as int)),
        decreases members.len() - i,
    {
        let fault = add_member(columns, &members[i], arc_count);
        proof {
            lemma_first_fault_step(faults, i as int);
            assert(members@.take(i + 1).drop_last() =~= members@.take(i as int));
        }
        if fault.is_some() {
            proof {
                lemma_first_fault_prefix(faults, i + 1);
            }
            return fault;
        }
        i += 1;
    }
    proof {
        lemma_first_fault_all(faults);
        assert(members@.take(members.len() as int) =~= members@);
    }
    None
}

/// The schema of a parsed TopoJSON topology with a single object: the
/// property names of its members in first-appearance order, then `geom`.
pub fn topojson_schema(doc: &JsonNode) -> (r: Result<Vec<String>, Diagnostic>)
    ensures
        match topojson_schema_spec(*doc) {
            Ok(names) => r matches Ok(v) && strings_view(v@) == names,
            Err(d) => r matches Err(e) && e@ == d,
        },
{
    let is_topology = match text_in(get_member(doc, "type")) {
        Some(kind) => str_eq(kind.as_str(), "Topology"),
        None => false,
    };
    if !is_topology {
        return Err(geo_error("expected a TopoJSON document with \"type\": \"Topology\""));
    }
    match get_member(doc, "transform") {
        Some(transform) => {
            let scale_ok = match items_in(get_member(transform, "scale")) {
                Some(xy) => xy.len() == 2,
                None => false,
            };
            if !scale_ok {
                return Err(geo_error("TopoJSON transform `scale` must be [x, y]"));
            }
            let translate_ok = match items_in(get_member(transform, "translate")) {
                Some(xy) => xy.len() == 2,
                None => false,
            };
            if !translate_ok {
                return Err(geo_error("TopoJSON transform `translate` must be [x, y]"));
            }
        },
        None => {},
    }
    let arcs = match items_in(get_member(doc, "arcs")) {
        Some(arcs) => arcs,
        None => return Err(geo_error("TopoJSON topology has no `arcs` array")),
    };
    match arcs_fault_check(arcs) {
        Some(message) => return Err(geo_error(message.as_str())),
        None => {},
    }
    let objects = match entries_in(get_member(doc, "objects")) {
        Some(objects) => objects,
        None => return Err(geo_error("TopoJSON topology has no `objects` map")),
    };
    if objects.len() == 0 {
        return Err(geo_error("TopoJSON topology has no objects"));
    }
    if objects.len() > 1 {
        let names = names_of_entries(objects);
        let mut message = copy_str("TopoJSON topology defines multiple objects (");
        push_joined(&mut message, names.as_slice(), ", ");
        push_str(&mut message, "); explicit object selection is not available in this release");
        return Err(Diagnostic::error(codes::E1821(), message.as_str(), Span::zero()));
    }
    let object = &objects[0].1;
    let is_collection = match text_in(get_member(object, "type")) {
        Some(kind) => str_eq(kind.as_str(), "GeometryCollection"),
        None => false,
    };
    let mut set = new_column_set();
    let ghost members = members_of(*object);
    let ghost count = arcs@.len();
    let fault = if is_collection {
        match items_in(get_member(object, "geometries")) {
            Some(geometries) => {
                let fault = add_members(&mut set, geometries, arcs.len());
                assert(members == geometries@);
                fault
            },
            None => {
                assert(members =~= Seq::<JsonNode>::empty());
                assert(member_faults(members, count) =~= Seq::<Option<Seq<char>>>::empty());
                assert(first_fault(member_faults(members, count)) is None);
                assert(members_columns(members) == Seq::<Seq<char>>::empty());
                None
            },
        }
    } else {
        let fault = add_member(&mut set, object, arcs.len());
        proof {
            assert(members =~= seq![*object]);
            assert(members.drop_last() =~= Seq::<JsonNode>::empty());
            assert(members.last() == *object);
            let faults = member_faults(members, count);
            assert(faults.drop_last() =~= Seq::<Option<Seq<char>>>::empty());
            assert(faults.last() == geometry_fault(*object, count));
            assert(first_fault(faults.drop_last()) is None);
            assert(first_fault(faults) == faults.last());
            assert(members_columns(members.drop_last()) == Seq::<Seq<char>>::empty());
        }
        fault
    };
    match fault {
        Some(message) => Err(geo_error(message.as_str())),
        None => {
            let mut columns = column_set_names(set);
            let ghost before = strings_view(columns@);
            columns.push(copy_str("geom"));
            assert(strings_view(columns@) =~= before.push(geom_column()));
            Ok(columns)
        },
    }
}

/// The text of TopoJSON bytes, or the failure for bytes that are not
/// UTF-8.
pub fn topojson_text<'a>(path: &str, bytes: &'a [u8]) -> (r: Result<&'a str, Diagnostic>)
    ensures
        match r {
            Ok(text) => valid_utf8(bytes@) && text@ == decode_utf8(bytes@),
            Err(d) => !valid_utf8(bytes@) && d@ == geo_error_view(
                "TopoJSON input for `"@ + path@ + "` is not UTF-8: "@ + utf8_error_text_of(bytes@),
            ),
        },
{
    match str_from_utf8(bytes) {
        Ok(text) => {
            proof {
                encode_utf8_decode_utf8(text@);
            }
            Ok(text)
        },
        Err(error) => {
            let mut m = copy_str("TopoJSON input for `");
            push_str(&mut m, path);
            push_str(&mut m, "` is not UTF-8: ");
            push_str(&mut m, error.as_str());
            Err(geo_error(m.as_str()))
        },
    }
}

/// The schema of a TopoJSON document as `serde_json` parsed it; a parse
/// error's text makes the failure.
pub fn topojson_schema_of_parse(parsed: Result<JsonNode, String>) -> (r: Result<Vec<String>, Diagnostic>)
    ensures
        match parsed {
            Ok(doc) => match topojson_schema_spec(doc) {
                Ok(names) => r matches Ok(v) && strings_view(v@) == names,
                Err(d) => r matches Err(e) && e@ == d,
            },
            Err(detail) => r matches Err(e) && e@ == geo_error_view("TopoJSON parse failed: "@ + detail@),
        },
{
    match parsed {
        Ok(doc) => topojson_schema(&doc),
        Err(detail) => {
            let mut m = copy_str("TopoJSON parse failed: ");
            push_str(&mut m, detail.as_str());
            Err(geo_error(m.as_str()))
        },
    }
}

} // verus!
