//! The plan for showing a parsed NIF: its object hierarchy for the inspector
//! and, per triangle shape, what the renderer has to build.

use vstd::prelude::*;
use std::collections::{HashMap, HashSet};
use crate::view::{
    alpha_function_code, alpha_test_code, blend_mode_for, cull_mode_for, AlphaTestFunction,
    BlendMode, CullFace, DrawMode,
};

verus! {

broadcast use vstd::std_specs::hash::group_hash_axioms;

/// One object of a NIF stream, by the key that links to it.
pub struct NifObject {
    pub key: u64,
    /// The object's type name, as the file stores it (`type_label`).
    pub type_label: String,
    /// A readable dump of the object's fields.
    pub fields: String,
    /// The keys of the objects it links to, in visiting order.
    pub links: Vec<u64>,
}

/// An object as the inspector shows it: its children are positions in the object list.
pub struct NifObjectInfo {
    pub type_label: String,
    pub fields: String,
    pub children: Vec<usize>,
}

/// Each key's position in the object list (the last position when a key repeats).
pub open spec fn key_positions(keys: Seq<u64>) -> Map<u64, int>
    decreases keys.len(),
{
    if keys.len() == 0 {
        Map::empty()
    } else {
        key_positions(keys.drop_last()).insert(keys.last(), keys.len() - 1)
    }
}

/// The positions of the linked objects, skipping links to objects not in the list.
pub open spec fn linked_positions(positions: Map<u64, int>, links: Seq<u64>) -> Seq<int>
    decreases links.len(),
{
    if links.len() == 0 {
        Seq::empty()
    } else {
        let front = linked_positions(positions, links.drop_last());
        if positions.contains_key(links.last()) {
            front.push(positions[links.last()])
        } else {
            front
        }
    }
}

/// The keys of a list of objects.
pub open spec fn object_keys(objects: Seq<NifObject>) -> Seq<u64> {
    objects.map_values(|o: NifObject| o.key)
}

/// Positions as integers.
pub open spec fn as_ints(v: Seq<usize>) -> Seq<int> {
    v.map_values(|x: usize| x as int)
}

fn key_position_map(objects: &Vec<NifObject>) -> (r: HashMap<u64, usize>)
    ensures
        forall|k: u64| #[trigger] r@.contains_key(k) == key_positions(object_keys(objects@)).contains_key(k),
        forall|k: u64| r@.contains_key(k) ==> #[trigger] r@[k] as int == key_positions(object_keys(objects@))[k],
{
    let mut map: HashMap<u64, usize> = HashMap::new();
    let ghost keys = object_keys(objects@);
    let mut i: usize = 0;
    while i < objects.len()
        invariant
            i <= objects.len(),
            keys == object_keys(objects@),
            forall|k: u64| #[trigger] map@.contains_key(k) == key_positions(keys.take(i as int)).contains_key(k),
            forall|k: u64| map@.contains_key(k) ==> #[trigger] map@[k] as int == key_positions(keys.take(i as int))[k],
        decreases objects.len() - i,
    {
        assert(keys.take(i + 1).drop_last() =~= keys.take(i as int));
        assert(keys.take(i + 1).last() == objects@[i as int].key);
        map.insert(objects[i].key, i);
        i += 1;
    }
    assert(keys.take(objects.len() as int) =~= keys);
    map
}

fn positions_of(map: &HashMap<u64, usize>, links: &Vec<u64>, positions: Ghost<Map<u64, int>>) -> (r: Vec<usize>)
    requires
        forall|k: u64| #[trigger] map@.contains_key(k) == positions@.contains_key(k),
        forall|k: u64| map@.contains_key(k) ==> #[trigger] map@[k] as int == positions@[k],
    ensures
        as_ints(r@) == linked_positions(positions@, links@),
{
    let mut r: Vec<usize> = Vec::new();
    let mut i: usize = 0;
    assert(as_ints(r@) =~= linked_positions(positions@, links@.take(0)));
    while i < links.len()
        invariant
            i <= links.len(),
            forall|k: u64| #[trigger] map@.contains_key(k) == positions@.contains_key(k),
            forall|k: u64| map@.contains_key(k) ==> #[trigger] map@[k] as int == positions@[k],
            as_ints(r@) == linked_positions(positions@, links@.take(i as int)),
        decreases links.len() - i,
    {
        assert(links@.take(i + 1).drop_last() =~= links@.take(i as int));
        assert(links@.take(i + 1).last() == links@[i as int]);
        let ghost before = as_ints(r@);
        match map.get(&links[i]) {
            Some(p) => {
                r.push(*p);
                assert(as_ints(r@) =~= before.push(*p as int));
            },
            None => {
                assert(as_ints(r@) =~= before);
            },
        }
        i += 1;
    }
    assert(links@.take(links.len() as int) =~= links@);
    r
}

/// The inspector's view of a stream: one entry per object with the positions
/// of the objects it links to, and the positions of the root objects.
pub fn build_hierarchy(objects: &Vec<NifObject>, root_keys: &Vec<u64>) -> (r: (Vec<NifObjectInfo>, Vec<usize>))
    ensures
        r.0.len() == objects.len(),
        forall|i: int| 0 <= i < objects.len() ==> {
            &&& (#[trigger] r.0@[i]).type_label@ == objects@[i].type_label@
            &&& r.0@[i].fields@ == objects@[i].fields@
            &&& as_ints(r.0@[i].children@) == linked_positions(key_positions(object_keys(objects@)), objects@[i].links@)
        },
        as_ints(r.1@) == linked_positions(key_positions(object_keys(objects@)), root_keys@),
{
    let map = key_position_map(objects);
    let ghost positions = key_positions(object_keys(objects@));
    let mut infos: Vec<NifObjectInfo> = Vec::new();
    let mut i: usize = 0;
    while i < objects.len()
        invariant
            i <= objects.len(),
            positions == key_positions(object_keys(objects@)),
            forall|k: u64| #[trigger] map@.contains_key(k) == positions.contains_key(k),
            forall|k: u64| map@.contains_key(k) ==> #[trigger] map@[k] as int == positions[k],
            infos.len() == i,
            forall|j: int| 0 <= j < i ==> {
                &&& (#[trigger] infos@[j]).type_label@ == objects@[j].type_label@
                &&& infos@[j].fields@ == objects@[j].fields@
                &&& as_ints(infos@[j].children@) == linked_positions(positions, objects@[j].links@)
            },
        decreases objects.len() - i,
    {
        let object = &objects[i];
        let children = positions_of(&map, &object.links, Ghost(positions));
        infos.push(NifObjectInfo {
            type_label: object.type_label.clone(),
            fields: object.fields.clone(),
            children,
        });
        i += 1;
    }
    let roots = positions_of(&map, root_keys, Ghost(positions));
    (infos, roots)
}


/// The alpha property of a shape.
#[derive(Clone, Copy, Debug, PartialEq, Eq)]
pub struct NifAlpha {
    pub blending: bool,
    pub testing: bool,
    pub function: AlphaTestFunction,
    pub test_ref: u8,
}

/// The geometry of a triangle shape: how many vertices and per-vertex
/// normals, texture coordinates and colors it has, and its triangles.
pub struct NifShapeData {
    pub vertex_count: usize,
    pub normal_count: usize,
    pub uv_count: usize,
    pub color_count: usize,
    pub triangles: Vec<(u16, u16, u16)>,
}

/// A triangle shape of the stream with the properties that affect its drawing.
pub struct NifShape {
    /// The key that links to the shape.
    pub key: u64,
    /// Its geometry, when its data object is present.
    pub data: Option<NifShapeData>,
    pub stencil_draw_mode: Option<DrawMode>,
    pub alpha: Option<NifAlpha>,
    /// The external diffuse texture it references.
    pub texture_path: Option<String>,
}

/// What the renderer builds for one shape.
pub struct ShapePlan {
    /// The shape's position in the inspector's object list.
    pub node_index: usize,
    /// Triangle-list indices.
    pub indices: Vec<u16>,
    /// Line-list indices: the three edges of every triangle.
    pub wireframe_indices: Vec<u16>,
    pub has_normals: bool,
    pub has_uvs: bool,
    pub has_vertex_colors: bool,
    pub cull: Option<CullFace>,
    pub blend: BlendMode,
    /// The alpha comparison code and reference value, for alpha-tested shapes.
    pub alpha_test: Option<(u32, u8)>,
    pub texture_path: Option<String>,
    pub is_collision: bool,
}

/// The triangle-list indices of a triangle list.
pub open spec fn triangle_indices(tris: Seq<(u16, u16, u16)>) -> Seq<u16>
    decreases tris.len(),
{
    if tris.len() == 0 {
        Seq::empty()
    } else {
        triangle_indices(tris.drop_last()) + seq![tris.last().0, tris.last().1, tris.last().2]
    }
}

/// The line-list indices of the edges of a triangle list.
pub open spec fn edge_indices(tris: Seq<(u16, u16, u16)>) -> Seq<u16>
    decreases tris.len(),
{
    if tris.len() == 0 {
        Seq::empty()
    } else {
        let t = tris.last();
        edge_indices(tris.drop_last()) + seq![t.0, t.1, t.1, t.2, t.2, t.0]
    }
}

/// A shape is drawn when its geometry is present, it is in the object list,
/// and it has vertices and triangles.
pub open spec fn renderable(shape: NifShape, positions: Map<u64, int>) -> bool {
    &&& shape.data is Some
    &&& positions.contains_key(shape.key)
    &&& shape.data.unwrap().vertex_count > 0
    &&& shape.data.unwrap().triangles.len() > 0
}

/// The shapes that are drawn, in order.
pub open spec fn renderable_shapes(shapes: Seq<NifShape>, positions: Map<u64, int>) -> Seq<NifShape>
    decreases shapes.len(),
{
    if shapes.len() == 0 {
        Seq::empty()
    } else if renderable(shapes.last(), positions) {
        renderable_shapes(shapes.drop_last(), positions).push(shapes.last())
    } else {
        renderable_shapes(shapes.drop_last(), positions)
    }
}

/// The number of triangles of the drawn shapes.
pub open spec fn triangle_total(shapes: Seq<NifShape>, positions: Map<u64, int>) -> nat
    decreases shapes.len(),
{
    if shapes.len() == 0 {
        0
    } else if renderable(shapes.last(), positions) {
        triangle_total(shapes.drop_last(), positions) + shapes.last().data.unwrap().triangles@.len()
    } else {
        triangle_total(shapes.drop_last(), positions)
    }
}

/// The alpha test of a shape: its comparison code and reference value when
/// its alpha property enables testing.
pub open spec fn alpha_test_of(alpha: Option<NifAlpha>) -> Option<(u32, u8)> {
    match alpha {
        Some(a) => if a.testing {
            Some((alpha_function_code(a.function), a.test_ref))
        } else {
            None
        },
        None => None,
    }
}

/// The blending of a shape's material.
pub open spec fn blend_of(alpha: Option<NifAlpha>) -> BlendMode {
    match alpha {
        Some(a) => if a.testing {
            BlendMode::Mask
        } else if a.blending {
            BlendMode::Blend
        } else {
            BlendMode::Opaque
        },
        None => BlendMode::Opaque,
    }
}

/// The face culling of a shape.
pub open spec fn cull_of(mode: Option<DrawMode>) -> Option<CullFace> {
    match mode {
        Some(DrawMode::Clockwise) => Some(CullFace::Front),
        Some(DrawMode::Both) => None,
        _ => Some(CullFace::Back),
    }
}

/// Views of an optional string.
pub open spec fn opt_chars(s: Option<String>) -> Option<Seq<char>> {
    match s {
        Some(t) => Some(t@),
        None => None,
    }
}

/// The plan of one drawn shape.
pub open spec fn plans_shape(
    plan: ShapePlan,
    shape: NifShape,
    positions: Map<u64, int>,
    collision: Set<u64>,
) -> bool {
    let d = shape.data.unwrap();
    &&& plan.node_index as int == positions[shape.key]
    &&& plan.indices@ == triangle_indices(d.triangles@)
    &&& plan.wireframe_indices@ == edge_indices(d.triangles@)
    &&& plan.has_normals == (d.normal_count == d.vertex_count)
    &&& plan.has_uvs == (d.uv_count == d.vertex_count)
    &&& plan.has_vertex_colors == (d.color_count == d.vertex_count)
    &&& plan.cull == cull_of(shape.stencil_draw_mode)
    &&& plan.blend == blend_of(shape.alpha)
    &&& plan.alpha_test == alpha_test_of(shape.alpha)
    &&& opt_chars(plan.texture_path) == opt_chars(shape.texture_path)
    &&& plan.is_collision == collision.contains(shape.key)
}

fn index_lists(tris: &Vec<(u16, u16, u16)>) -> (r: (Vec<u16>, Vec<u16>))
    ensures
        r.0@ == triangle_indices(tris@),
        r.1@ == edge_indices(tris@),
{
    let mut indices: Vec<u16> = Vec::new();
    let mut edges: Vec<u16> = Vec::new();
    let mut i: usize = 0;
    while i < tris.len()
        invariant
            i <= tris.len(),
            indices@ == triangle_indices(tris@.take(i as int)),
            edges@ == edge_indices(tris@.take(i as int)),
        decreases tris.len() - i,
    {
        let (a, b, c) = tris[i];
        assert(tris@.take(i + 1).drop_last() =~= tris@.take(i as int));
        assert(tris@.take(i + 1).last() == (a, b, c));
        let ghost old_indices = indices@;
        let ghost old_edges = edges@;
        indices.push(a);
        indices.push(b);
        indices.push(c);
        edges.push(a);
        edges.push(b);
        edges.push(b);
        edges.push(c);
        edges.push(c);
        edges.push(a);
        assert(indices@ =~= old_indices + seq![a, b, c]);
        assert(edges@ =~= old_edges + seq![a, b, b, c, c, a]);
        i += 1;
    }
    assert(tris@.take(tris.len() as int) =~= tris@);
    (indices, edges)
}

fn copy_path(s: &Option<String>) -> (r: Option<String>)
    ensures
        opt_chars(r) == opt_chars(*s),
{
    match s {
        Some(t) => Some(t.clone()),
        None => None,
    }
}

/// The plan for the drawn shapes of a stream: per drawn shape (in order) its
/// node, index lists, vertex attributes, culling, blending, alpha test,
/// texture and whether it is a collision shape, plus the total triangle count.
/// A stream with no drawn shape is refused.
pub fn plan_shapes(
    shapes: &Vec<NifShape>,
    objects: &Vec<NifObject>,
    collision_keys: &Vec<u64>,
) -> (r: Result<(usize, Vec<ShapePlan>), String>)
    requires
        triangle_total(shapes@, key_positions(object_keys(objects@))) <= usize::MAX,
    ensures
        ({
            let positions = key_positions(object_keys(objects@));
            let drawn = renderable_shapes(shapes@, positions);
            match r {
                Ok((count, plans)) => {
                    &&& drawn.len() > 0
                    &&& count == triangle_total(shapes@, positions)
                    &&& plans.len() == drawn.len()
                    &&& forall|i: int| 0 <= i < plans.len() ==> plans_shape(#[trigger] plans@[i], drawn[i], positions, collision_keys@.to_set())
                },
                Err(message) => drawn.len() == 0 && message@ == "No renderable meshes were found in NIF file!"@,
            }
        }),
{
    let map = key_position_map(objects);
    let ghost positions = key_positions(object_keys(objects@));
    let mut collision: HashSet<u64> = HashSet::new();
    let mut k: usize = 0;
    while k < collision_keys.len()
        invariant
            k <= collision_keys.len(),
            collision@ == collision_keys@.take(k as int).to_set(),
        decreases collision_keys.len() - k,
    {
        assert(collision_keys@.take(k + 1) =~= collision_keys@.take(k as int).push(collision_keys@[k as int]));
        collision.insert(collision_keys[k]);
        assert(collision_keys@.take(k + 1).to_set() =~= collision_keys@.take(k as int).to_set().insert(collision_keys@[k as int])) by {
            vstd::seq_lib::lemma_seq_contains_after_push(collision_keys@.take(k as int), collision_keys@[k as int], collision_keys@[k as int]);
            assert forall|x: u64| collision_keys@.take(k + 1).to_set().contains(x) <==> collision_keys@.take(k as int).to_set().insert(collision_keys@[k as int]).contains(x) by {
                let front = collision_keys@.take(k as int);
                let v = collision_keys@[k as int];
                if front.push(v).contains(x) {
                    let j = choose|j: int| 0 <= j < front.push(v).len() && front.push(v)[j] == x;
                    if j < front.len() {
                        assert(front[j] == x);
                    }
                }
                if front.contains(x) {
                    let j = choose|j: int| 0 <= j < front.len() && front[j] == x;
                    assert(front.push(v)[j] == x);
                }
                assert(front.push(v)[front.len() as int] == v);
            }
        }
        k += 1;
    }
    assert(collision_keys@.take(collision_keys.len() as int) =~= collision_keys@);
    let mut plans: Vec<ShapePlan> = Vec::new();
    let mut count: usize = 0;
    let mut i: usize = 0;
    while i < shapes.len()
        invariant
            i <= shapes.len(),
            positions == key_positions(object_keys(objects@)),
            forall|key: u64| #[trigger] map@.contains_key(key) == positions.contains_key(key),
            forall|key: u64| map@.contains_key(key) ==> #[trigger] map@[key] as int == positions[key],
            collision@ == collision_keys@.to_set(),
            triangle_total(shapes@, positions) <= usize::MAX,
            count == triangle_total(shapes@.take(i as int), positions),
            plans.len() == renderable_shapes(shapes@.take(i as int), positions).len(),
            forall|j: int| 0 <= j < plans.len() ==> plans_shape(#[trigger] plans@[j], renderable_shapes(shapes@.take(i as int), positions)[j], positions, collision_keys@.to_set()),
        decreases shapes.len() - i,
    {
        let ghost prev = shapes@.take(i as int);
        let ghost next = shapes@.take(i + 1);
        assert(next.drop_last() =~= prev);
        assert(next.last() == shapes@[i as int]);
        proof { lemma_triangle_total_prefix(shapes@, positions, i + 1); }
        let shape = &shapes[i];
        let data = match &shape.data {
            Some(d) => d,
            None => {
                i += 1;
                continue;
            },
        };
        let node_index = match map.get(&shape.key) {
            Some(n) => *n,
            None => {
                i += 1;
                continue;
            },
        };
        if data.vertex_count == 0 || data.triangles.len() == 0 {
            i += 1;
            continue;
        }
        count = count + data.triangles.len();
        let (indices, wireframe_indices) = index_lists(&data.triangles);
        let alpha_test = match shape.alpha {
            Some(a) => if a.testing {
                Some((alpha_test_code(a.function), a.test_ref))
            } else {
                None
            },
            None => None,
        };
        let blend = match shape.alpha {
            Some(a) => blend_mode_for(a.blending, a.testing),
            None => BlendMode::Opaque,
        };
        let plan = ShapePlan {
            node_index,
            indices,
            wireframe_indices,
            has_normals: data.normal_count == data.vertex_count,
            has_uvs: data.uv_count == data.vertex_count,
            has_vertex_colors: data.color_count == data.vertex_count,
            cull: cull_mode_for(shape.stencil_draw_mode),
            blend,
            alpha_test,
            texture_path: copy_path(&shape.texture_path),
            is_collision: collision.contains(&shape.key),
        };
        plans.push(plan);
        i += 1;
    }
    assert(shapes@.take(shapes.len() as int) =~= shapes@);
    if plans.len() == 0 {
        return Err("No renderable meshes were found in NIF file!".to_owned());
    }
    Ok((count, plans))
}

proof fn lemma_triangle_total_prefix(shapes: Seq<NifShape>, positions: Map<u64, int>, n: int)
    requires
        0 <= n <= shapes.len(),
    ensures
        triangle_total(shapes.take(n), positions) <= triangle_total(shapes, positions),
    decreases shapes.len(),
{
    if n < shapes.len() {
        assert(shapes.drop_last().take(n) =~= shapes.take(n));
        lemma_triangle_total_prefix(shapes.drop_last(), positions, n);
    } else {
        assert(shapes.take(n) =~= shapes);
    }
}

proof fn lemma_key_positions_in_range(keys: Seq<u64>)
    ensures
        forall|k: u64| #[trigger] key_positions(keys).contains_key(k) ==> 0 <= key_positions(keys)[k] < keys.len(),
    decreases keys.len(),
{
    if keys.len() > 0 {
        lemma_key_positions_in_range(keys.drop_last());
        let front = key_positions(keys.drop_last());
        assert forall|k: u64| #[trigger] key_positions(keys).contains_key(k) implies 0 <= key_positions(keys)[k]
            < keys.len() by {
            if k != keys.last() {
                assert(front.contains_key(k));
                assert(key_positions(keys)[k] == front[k]);
            }
        }
    }
}

proof fn lemma_linked_positions_from(positions: Map<u64, int>, links: Seq<u64>, bound: int)
    requires
        forall|k: u64| #[trigger] positions.contains_key(k) ==> 0 <= positions[k] < bound,
    ensures
        forall|j: int| 0 <= j < linked_positions(positions, links).len() ==> 0 <= #[trigger] linked_positions(positions, links)[j] < bound,
    decreases links.len(),
{
    if links.len() > 0 {
        lemma_linked_positions_from(positions, links.drop_last(), bound);
        let front = linked_positions(positions, links.drop_last());
        let all = linked_positions(positions, links);
        assert forall|j: int| 0 <= j < all.len() implies 0 <= #[trigger] all[j] < bound by {
            if j < front.len() {
                assert(all[j] == front[j]);
            }
        }
    }
}

/// Every child and every root the inspector lists is the position of an
/// object of the stream, so following links never leaves the object list.
pub proof fn lemma_hierarchy_positions_in_range(objects: Seq<NifObject>, links: Seq<u64>)
    ensures
        forall|j: int| 0 <= j < linked_positions(key_positions(object_keys(objects)), links).len()
            ==> 0 <= #[trigger] linked_positions(key_positions(object_keys(objects)), links)[j] < objects.len(),
{
    lemma_key_positions_in_range(object_keys(objects));
    lemma_linked_positions_from(key_positions(object_keys(objects)), links, objects.len() as int);
}

/// Every triangle puts its three corners in the triangle list and its three
/// edges, two indices each, in the line list.
pub proof fn lemma_index_list_lengths(tris: Seq<(u16, u16, u16)>)
    ensures
        triangle_indices(tris).len() == 3 * tris.len(),
        edge_indices(tris).len() == 6 * tris.len(),
    decreases tris.len(),
{
    if tris.len() > 0 {
        lemma_index_list_lengths(tris.drop_last());
    }
}
} // verus!
