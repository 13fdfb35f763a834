//! Export of the loaded meshes as Wavefront OBJ text: one object per shape,
//! its vertices and normals as the caller formatted them, and its triangles
//! numbered across the whole file.
use vstd::prelude::*;
use crate::keys::{decimal, decimal_chars};
use crate::text::string_from_chars;

verus! {

/// One loaded shape as it goes into the OBJ file.
pub struct ObjShape {
    /// The number that names the shape's object (`o nif_shape_<entity>`).
    pub entity: u32,
    /// Its `v` lines, one per vertex, in the shape's vertex order.
    pub vertex_lines: String,
    /// Its `vn` lines, one per vertex, when the shape has normals.
    pub normal_lines: Option<String>,
    /// The number of its vertices.
    pub vertex_count: usize,
    /// Its triangle-list indices; `None` when the mesh draws its vertices in order.
    pub indices: Option<Vec<u32>>,
}

/// The triangle-list indices of a shape.
pub open spec fn face_indices(shape: ObjShape) -> Seq<u32> {
    match shape.indices {
        Some(v) => v@,
        None => Seq::new(shape.vertex_count as nat, |i: int| i as u32),
    }
}

/// A shape is exported when it has at least one triangle.
pub open spec fn exported(shape: ObjShape) -> bool {
    face_indices(shape).len() >= 3
}

/// The number of vertices of the exported shapes.
pub open spec fn vertex_total(shapes: Seq<ObjShape>) -> nat
    decreases shapes.len(),
{
    if shapes.len() == 0 {
        0
    } else {
        vertex_total(shapes.drop_last()) + if exported(shapes.last()) {
            shapes.last().vertex_count as nat
        } else {
            0
        }
    }
}

/// The `f` line of one triangle with vertex numbers `a`, `b`, `c`; with
/// normals each vertex also names its normal.
pub open spec fn face_line(a: nat, b: nat, c: nat, normals: bool) -> Seq<char> {
    if normals {
        "f "@ + decimal(a) + "//"@ + decimal(a) + " "@ + decimal(b) + "//"@ + decimal(b) + " "@ + decimal(c)
            + "//"@ + decimal(c) + "\n"@
    } else {
        "f "@ + decimal(a) + " "@ + decimal(b) + " "@ + decimal(c) + "\n"@
    }
}

/// The `f` lines of the first `n` triangles of an index list, the indices
/// shifted by `offset`.
pub open spec fn face_lines(indices: Seq<u32>, n: nat, offset: nat, normals: bool) -> Seq<char>
    decreases n,
{
    if n == 0 {
        Seq::empty()
    } else {
        let t = 3 * (n - 1);
        face_lines(indices, (n - 1) as nat, offset, normals) + face_line(
            (indices[t] + offset) as nat,
            (indices[t + 1] + offset) as nat,
            (indices[t + 2] + offset) as nat,
            normals,
        )
    }
}

/// The lines of one exported shape whose first vertex has number `offset`:
/// its object line, vertices, normals and faces (a trailing partial
/// triangle is left out).
pub open spec fn shape_block(shape: ObjShape, offset: nat) -> Seq<char> {
    let indices = face_indices(shape);
    let normals = match shape.normal_lines {
        Some(n) => n@,
        None => Seq::empty(),
    };
    "o nif_shape_"@ + decimal(shape.entity as nat) + "\n"@ + shape.vertex_lines@ + normals + face_lines(
        indices,
        indices.len() / 3,
        offset,
        shape.normal_lines is Some,
    )
}

/// The blocks of the exported shapes, vertices numbered from 1 across the file.
pub open spec fn obj_body(shapes: Seq<ObjShape>) -> Seq<char>
    decreases shapes.len(),
{
    if shapes.len() == 0 {
        Seq::empty()
    } else {
        obj_body(shapes.drop_last()) + if exported(shapes.last()) {
            shape_block(shapes.last(), 1 + vertex_total(shapes.drop_last()))
        } else {
            Seq::empty()
        }
    }
}

/// The OBJ text of the shapes: a comment line, then the exported shapes.
pub open spec fn obj_text_of(shapes: Seq<ObjShape>) -> Seq<char> {
    "# Exported by esp-viewer\n"@ + obj_body(shapes)
}

proof fn lemma_vertex_total_prefix(shapes: Seq<ObjShape>, n: int)
    requires
        0 <= n <= shapes.len(),
    ensures
        vertex_total(shapes.take(n)) <= vertex_total(shapes),
    decreases shapes.len(),
{
    if n < shapes.len() {
        assert(shapes.drop_last().take(n) =~= shapes.take(n));
        lemma_vertex_total_prefix(shapes.drop_last(), n);
    } else {
        assert(shapes.take(n) =~= shapes);
    }
}

/// The decimal form of a number as a string.
fn decimal_string(n: u64) -> (r: String)
    ensures
        r@ == decimal(n as nat),
{
    string_from_chars(&decimal_chars(n))
}

/// The `f` line of one triangle (see `face_line`).
fn face_line_text(a: u64, b: u64, c: u64, normals: bool) -> (r: String)
    ensures
        r@ == face_line(a as nat, b as nat, c as nat, normals),
{
    let da = decimal_string(a);
    let db = decimal_string(b);
    let dc = decimal_string(c);
    let mut text = String::from_str("f ");
    text.append(da.as_str());
    if normals {
        text.append("//");
        text.append(da.as_str());
        text.append(" ");
        text.append(db.as_str());
        text.append("//");
        text.append(db.as_str());
        text.append(" ");
        text.append(dc.as_str());
        text.append("//");
        text.append(dc.as_str());
    } else {
        text.append(" ");
        text.append(db.as_str());
        text.append(" ");
        text.append(dc.as_str());
    }
    text.append("\n");
    text
}

/// Appends the `f` lines of an index list, shifted by `offset`.
fn append_faces(text: &mut String, indices: &Vec<u32>, offset: u64, normals: bool)
    requires
        offset <= u32::MAX,
    ensures
        final(text)@ == old(text)@ + face_lines(indices@, indices@.len() / 3, offset as nat, normals),
{
    let count = indices.len() / 3;
    let mut t: usize = 0;
    while t < count
        invariant
            count == indices@.len() / 3,
            t <= count,
            offset <= u32::MAX,
            text@ == old(text)@ + face_lines(indices@, t as nat, offset as nat, normals),
        decreases count - t,
    {
        assert(3 * t + 2 < indices.len()) by (nonlinear_arith)
            requires
                t < count,
                count == indices@.len() / 3,
        ;
        let line = face_line_text(
            indices[3 * t] as u64 + offset,
            indices[3 * t + 1] as u64 + offset,
            indices[3 * t + 2] as u64 + offset,
            normals,
        );
        let ghost before = text@;
        text.append(line.as_str());
        assert(face_lines(indices@, (t + 1) as nat, offset as nat, normals) == face_lines(
            indices@,
            t as nat,
            offset as nat,
            normals,
        ) + face_line(
            (indices@[3 * t as int] + offset) as nat,
            (indices@[3 * t as int + 1] + offset) as nat,
            (indices@[3 * t as int + 2] + offset) as nat,
            normals,
        ));
        assert(text@ =~= old(text)@ + face_lines(indices@, (t + 1) as nat, offset as nat, normals));
        t += 1;
    }
}

/// The indices of a mesh drawn in vertex order.
fn vertex_order(count: usize) -> (r: Vec<u32>)
    requires
        count <= u32::MAX,
    ensures
        r@ == Seq::new(count as nat, |i: int| i as u32),
{
    let mut r: Vec<u32> = Vec::new();
    let mut i: usize = 0;
    while i < count
        invariant
            i <= count,
            count <= u32::MAX,
            r@ == Seq::new(i as nat, |j: int| j as u32),
        decreases count - i,
    {
        r.push(i as u32);
        i += 1;
        assert(r@ =~= Seq::new(i as nat, |j: int| j as u32));
    }
    r
}

/// The OBJ text of the loaded shapes: after a comment line, per shape with
/// at least one triangle its object line, the given vertex and normal lines,
/// and one `f` line per triangle, vertices numbered from 1 across the file.
pub fn obj_text(shapes: &Vec<ObjShape>) -> (r: String)
    requires
        1 + vertex_total(shapes@) <= u32::MAX,
        forall|k: int| 0 <= k < shapes.len() ==> (#[trigger] shapes@[k]).vertex_count <= u32::MAX,
    ensures
        r@ == obj_text_of(shapes@),
{
    let mut text = String::from_str("# Exported by esp-viewer\n");
    let mut offset: u64 = 1;
    let mut k: usize = 0;
    assert(shapes@.take(0) =~= Seq::<ObjShape>::empty());
    while k < shapes.len()
        invariant
            k <= shapes.len(),
            1 + vertex_total(shapes@) <= u32::MAX,
            forall|j: int| 0 <= j < shapes.len() ==> (#[trigger] shapes@[j]).vertex_count <= u32::MAX,
            offset == 1 + vertex_total(shapes@.take(k as int)),
            text@ == "# Exported by esp-viewer\n"@ + obj_body(shapes@.take(k as int)),
        decreases shapes.len() - k,
    {
        let shape = &shapes[k];
        let ghost prev = shapes@.take(k as int);
        assert(shapes@.take(k + 1).drop_last() =~= prev);
        assert(shapes@.take(k + 1).last() == *shape);
        proof {
            lemma_vertex_total_prefix(shapes@, k + 1);
        }
        let built: Vec<u32>;
        let indices: &Vec<u32> = match &shape.indices {
            Some(v) => v,
            None => {
                built = vertex_order(shape.vertex_count);
                &built
            },
        };
        assert(indices@ == face_indices(*shape));
        if indices.len() >= 3 {
            let ghost before = text@;
            text.append("o nif_shape_");
            text.append(decimal_string(shape.entity as u64).as_str());
            text.append("\n");
            text.append(shape.vertex_lines.as_str());
            if let Some(normals) = &shape.normal_lines {
                text.append(normals.as_str());
            }
            append_faces(&mut text, indices, offset, shape.normal_lines.is_some());
            assert(text@ =~= before + shape_block(*shape, offset as nat));
            offset = offset + shape.vertex_count as u64;
        }
        k += 1;
    }
    assert(shapes@.take(shapes.len() as int) =~= shapes@);
    text
}

} // verus!
