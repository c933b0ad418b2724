use vstd::prelude::*;
use vstd::relations::injective_on;
use vstd::set_lib::{lemma_int_range, lemma_len_subset, lemma_map_size, set_int_range};

verus! {

#[derive(Clone, Copy, Debug, PartialEq, Eq, Hash, Structural)]
pub enum Axis {
    X,
    Y,
    Z,
}

#[derive(Clone, Copy, Debug, PartialEq, Eq, Hash, Structural)]
pub struct AxisDir {
    pub axis: Axis,
    pub dir: i8,
}

fn axis_dir(axis: Axis, dir: i8) -> (r: AxisDir)
    ensures
        r == (AxisDir { axis, dir }),
{
    AxisDir { axis, dir }
}

/// A cubie position relative to the cube centre.
#[derive(Clone, Copy, Debug, PartialEq, Eq, Hash, Structural)]
pub struct LatticePoint {
    pub x: i8,
    pub y: i8,
    pub z: i8,
}

/// The component of `p` along `axis`.
pub open spec fn comp(p: LatticePoint, axis: Axis) -> int {
    match axis {
        Axis::X => p.x as int,
        Axis::Y => p.y as int,
        Axis::Z => p.z as int,
    }
}

/// Every component of `p` lies in {-1, 0, 1}.
pub open spec fn in_unit_cube(p: LatticePoint) -> bool {
    -1 <= p.x <= 1 && -1 <= p.y <= 1 && -1 <= p.z <= 1
}

impl LatticePoint {
    pub fn new(x: i8, y: i8, z: i8) -> (r: Self)
        ensures
            r == (LatticePoint { x, y, z }),
    {
        Self { x, y, z }
    }

    pub fn zero() -> (r: Self)
        ensures
            r == (LatticePoint { x: 0, y: 0, z: 0 }),
    {
        Self { x: 0, y: 0, z: 0 }
    }

    pub fn set_component(&mut self, axis: Axis, value: i8)
        ensures
            comp(*final(self), axis) == value,
            forall|b: Axis| b != axis ==> comp(*final(self), b) == comp(*old(self), b),
    {
        match axis {
            Axis::X => self.x = value,
            Axis::Y => self.y = value,
            Axis::Z => self.z = value,
        }
    }

    pub fn add_component(&mut self, axis: Axis, delta: i8)
        requires
            i8::MIN <= comp(*old(self), axis) + delta <= i8::MAX,
        ensures
            comp(*final(self), axis) == comp(*old(self), axis) + delta,
            forall|b: Axis| b != axis ==> comp(*final(self), b) == comp(*old(self), b),
    {
        match axis {
            Axis::X => self.x = self.x + delta,
            Axis::Y => self.y = self.y + delta,
            Axis::Z => self.z = self.z + delta,
        }
    }

    pub fn component(&self, axis: Axis) -> (r: i8)
        ensures
            r == comp(*self, axis),
    {
        match axis {
            Axis::X => self.x,
            Axis::Y => self.y,
            Axis::Z => self.z,
        }
    }
}


#[derive(Clone, Copy, Debug, PartialEq, Eq, Hash, Structural)]
pub enum Face {
    Up,
    Down,
    Right,
    Left,
    Front,
    Back,
}

#[derive(Clone, Copy, Debug, PartialEq, Eq, Hash, Structural)]
pub enum FaceColor {
    White,
    Yellow,
    Red,
    Orange,
    Blue,
    Green,
}

/// The orthonormal frame of a face: its outward normal and the directions
/// of its sticker grid's rows (up) and columns (right).
#[derive(Clone, Copy, Debug, PartialEq, Eq, Hash, Structural)]
pub struct FaceSpec {
    pub face: Face,
    pub normal: AxisDir,
    pub up: AxisDir,
    pub right: AxisDir,
}

/// Position of a face in the canonical face order.
pub open spec fn face_index(f: Face) -> int {
    match f {
        Face::Up => 0,
        Face::Down => 1,
        Face::Right => 2,
        Face::Left => 3,
        Face::Front => 4,
        Face::Back => 5,
    }
}

/// The face at position `k` of the canonical face order.
pub open spec fn face_at(k: int) -> Face {
    if k == 0 {
        Face::Up
    } else if k == 1 {
        Face::Down
    } else if k == 2 {
        Face::Right
    } else if k == 3 {
        Face::Left
    } else if k == 4 {
        Face::Front
    } else {
        Face::Back
    }
}

pub open spec fn canonical_color(f: Face) -> FaceColor {
    match f {
        Face::Up => FaceColor::White,
        Face::Down => FaceColor::Yellow,
        Face::Right => FaceColor::Red,
        Face::Left => FaceColor::Orange,
        Face::Front => FaceColor::Green,
        Face::Back => FaceColor::Blue,
    }
}

pub open spec fn face_layout(f: Face) -> FaceSpec {
    match f {
        Face::Up => FaceSpec {
            face: Face::Up,
            normal: AxisDir { axis: Axis::Y, dir: 1 },
            up: AxisDir { axis: Axis::Z, dir: -1i8 },
            right: AxisDir { axis: Axis::X, dir: 1 },
        },
        Face::Down => FaceSpec {
            face: Face::Down,
            normal: AxisDir { axis: Axis::Y, dir: -1i8 },
            up: AxisDir { axis: Axis::Z, dir: 1 },
            right: AxisDir { axis: Axis::X, dir: 1 },
        },
        Face::Right => FaceSpec {
            face: Face::Right,
            normal: AxisDir { axis: Axis::X, dir: 1 },
            up: AxisDir { axis: Axis::Y, dir: 1 },
            right: AxisDir { axis: Axis::Z, dir: -1i8 },
        },
        Face::Left => FaceSpec {
            face: Face::Left,
            normal: AxisDir { axis: Axis::X, dir: -1i8 },
            up: AxisDir { axis: Axis::Y, dir: 1 },
            right: AxisDir { axis: Axis::Z, dir: 1 },
        },
        Face::Front => FaceSpec {
            face: Face::Front,
            normal: AxisDir { axis: Axis::Z, dir: 1 },
            up: AxisDir { axis: Axis::Y, dir: 1 },
            right: AxisDir { axis: Axis::X, dir: 1 },
        },
        Face::Back => FaceSpec {
            face: Face::Back,
            normal: AxisDir { axis: Axis::Z, dir: -1i8 },
            up: AxisDir { axis: Axis::Y, dir: 1 },
            right: AxisDir { axis: Axis::X, dir: -1i8 },
        },
    }
}

/// The faces in canonical order.
pub open spec fn all_faces() -> Seq<Face> {
    seq![Face::Up, Face::Down, Face::Right, Face::Left, Face::Front, Face::Back]
}

impl Face {
    pub fn default_color(self) -> (r: FaceColor)
        ensures
            r == canonical_color(self),
    {
        match self {
            Face::Up => FaceColor::White,
            Face::Down => FaceColor::Yellow,
            Face::Right => FaceColor::Red,
            Face::Left => FaceColor::Orange,
            Face::Front => FaceColor::Green,
            Face::Back => FaceColor::Blue,
        }
    }

    pub fn spec(self) -> (r: FaceSpec)
        ensures
            r == face_layout(self),
    {
        match self {
            Face::Up => FaceSpec {
                face: Face::Up,
                normal: axis_dir(Axis::Y, 1),
                up: axis_dir(Axis::Z, -1),
                right: axis_dir(Axis::X, 1),
            },
            Face::Down => FaceSpec {
                face: Face::Down,
                normal: axis_dir(Axis::Y, -1),
                up: axis_dir(Axis::Z, 1),
                right: axis_dir(Axis::X, 1),
            },
            Face::Right => FaceSpec {
                face: Face::Right,
                normal: axis_dir(Axis::X, 1),
                up: axis_dir(Axis::Y, 1),
                right: axis_dir(Axis::Z, -1),
            },
            Face::Left => FaceSpec {
                face: Face::Left,
                normal: axis_dir(Axis::X, -1),
                up: axis_dir(Axis::Y, 1),
                right: axis_dir(Axis::Z, 1),
            },
            Face::Front => FaceSpec {
                face: Face::Front,
                normal: axis_dir(Axis::Z, 1),
                up: axis_dir(Axis::Y, 1),
                right: axis_dir(Axis::X, 1),
            },
            Face::Back => FaceSpec {
                face: Face::Back,
                normal: axis_dir(Axis::Z, -1),
                up: axis_dir(Axis::Y, 1),
                right: axis_dir(Axis::X, -1),
            },
        }
    }

    pub fn all() -> (r: Vec<Face>)
        ensures
            r@ == all_faces(),
    {
        let r = vec![Face::Up, Face::Down, Face::Right, Face::Left, Face::Front, Face::Back];
        assert(r@ =~= all_faces());
        r
    }
}


/// One sticker slot of the cube: its face, its lattice coordinate and its
/// position in the face's 3x3 grid.
#[derive(Clone, Copy, Debug, PartialEq, Eq, Hash, Structural)]
pub struct FaceletDescriptor {
    pub face: Face,
    pub coord: LatticePoint,
    pub row: u8,
    pub col: u8,
}

/// The (coordinate, face) pair that names one facelet.
#[derive(Clone, Copy, Debug, PartialEq, Eq, Hash, Structural)]
pub struct FaceletKey {
    pub coord: LatticePoint,
    pub face: Face,
}

/// Number of facelets on the cube.
pub const FACELET_COUNT: usize = 54;

/// `v` taken with the sign of `d`.
pub open spec fn signed(d: i8, v: int) -> int {
    if d >= 0 {
        v
    } else {
        -v
    }
}

/// Component along `a` of the sticker at (`row`, `col`) of a face laid out as `l`.
pub open spec fn layout_comp(l: FaceSpec, row: int, col: int, a: Axis) -> int {
    if a == l.normal.axis {
        l.normal.dir as int
    } else if a == l.right.axis {
        signed(l.right.dir, col - 1)
    } else {
        signed(l.up.dir, 1 - row)
    }
}

/// Lattice coordinate of the sticker at (`row`, `col`) of face `f`.
pub open spec fn grid_point(f: Face, row: int, col: int) -> LatticePoint {
    let l = face_layout(f);
    LatticePoint {
        x: layout_comp(l, row, col, Axis::X) as i8,
        y: layout_comp(l, row, col, Axis::Y) as i8,
        z: layout_comp(l, row, col, Axis::Z) as i8,
    }
}

/// Face of the facelet with flat index `i`.
pub open spec fn facelet_face(i: int) -> Face {
    face_at(i / 9)
}

/// Coordinate of the facelet with flat index `i`.
pub open spec fn facelet_point(i: int) -> LatticePoint {
    grid_point(face_at(i / 9), (i % 9) / 3, i % 3)
}

/// `(p, f)` names a facelet: `p` lies on the lattice and sits on the plane of `f`.
pub open spec fn is_facelet(p: LatticePoint, f: Face) -> bool {
    in_unit_cube(p) && comp(p, face_layout(f).normal.axis) == face_layout(f).normal.dir
}

/// Flat index of the facelet `(p, f)`: face-major, then row, then column.
pub open spec fn index_of(p: LatticePoint, f: Face) -> int {
    let l = face_layout(f);
    9 * face_index(f) + 3 * (1 - signed(l.up.dir, comp(p, l.up.axis))) + (signed(
        l.right.dir,
        comp(p, l.right.axis),
    ) + 1)
}

proof fn lemma_grid_point(f: Face, row: int, col: int)
    requires
        0 <= row < 3,
        0 <= col < 3,
    ensures
        is_facelet(grid_point(f, row, col), f),
        index_of(grid_point(f, row, col), f) == 9 * face_index(f) + 3 * row + col,
{
}

proof fn lemma_split_index(i: int)
    requires
        0 <= i < 54,
    ensures
        0 <= i / 9 < 6,
        0 <= (i % 9) / 3 < 3,
        0 <= i % 3 < 3,
        i == 9 * (i / 9) + 3 * ((i % 9) / 3) + i % 3,
        face_index(face_at(i / 9)) == i / 9,
{
}

proof fn lemma_join_index(k: int, row: int, col: int)
    requires
        0 <= k < 6,
        0 <= row < 3,
        0 <= col < 3,
    ensures
        (9 * k + 3 * row + col) / 9 == k,
        ((9 * k + 3 * row + col) % 9) / 3 == row,
        (9 * k + 3 * row + col) % 3 == col,
{
}

/// The flat facelet index is a bijection between the 54 indices and the
/// valid (coordinate, face) pairs: each index names a valid pair that maps
/// back to it, and each valid pair maps to an index that names it.
pub proof fn lemma_facelet_bijection()
    ensures
        forall|i: int|
            0 <= i < 54 ==> #[trigger] is_facelet(facelet_point(i), facelet_face(i)) && index_of(
                facelet_point(i),
                facelet_face(i),
            ) == i,
        forall|p: LatticePoint, f: Face| #[trigger]
            is_facelet(p, f) ==> 0 <= index_of(p, f) < 54 && facelet_point(index_of(p, f)) == p
                && facelet_face(index_of(p, f)) == f,
{
    assert forall|i: int| 0 <= i < 54 implies #[trigger] is_facelet(
        facelet_point(i),
        facelet_face(i),
    ) && index_of(facelet_point(i), facelet_face(i)) == i by {
        lemma_split_index(i);
        lemma_grid_point(face_at(i / 9), (i % 9) / 3, i % 3);
    }
    assert forall|p: LatticePoint, f: Face| #[trigger] is_facelet(p, f) implies 0 <= index_of(p, f)
        < 54 && facelet_point(index_of(p, f)) == p && facelet_face(index_of(p, f)) == f by {
        let l = face_layout(f);
        let row = 1 - signed(l.up.dir, comp(p, l.up.axis));
        let col = signed(l.right.dir, comp(p, l.right.axis)) + 1;
        assert(0 <= row < 3 && 0 <= col < 3);
        lemma_join_index(face_index(f), row, col);
        assert(index_of(p, f) == 9 * face_index(f) + 3 * row + col);
        assert(face_at(face_index(f)) == f);
        assert(facelet_point(index_of(p, f)) == grid_point(f, row, col));
        assert(grid_point(f, row, col) == p);
    }
}


fn face_position(f: Face) -> (r: usize)
    ensures
        r == face_index(f),
{
    match f {
        Face::Up => 0,
        Face::Down => 1,
        Face::Right => 2,
        Face::Left => 3,
        Face::Front => 4,
        Face::Back => 5,
    }
}

/// `v` taken with the sign of `d`.
fn apply_sign(d: i8, v: i8) -> (r: i8)
    requires
        -1 <= v <= 1,
    ensures
        r == signed(d, v as int),
{
    if d >= 0 {
        v
    } else {
        -v
    }
}

/// Offset along a face's right axis of grid column `col`.
fn grid_col(col: u8) -> (r: i8)
    requires
        col < 3,
    ensures
        r == col - 1,
{
    if col == 0 {
        -1
    } else if col == 1 {
        0
    } else {
        1
    }
}

/// Offset along a face's up axis of grid row `row` (row 0 is the top).
fn grid_row(row: u8) -> (r: i8)
    requires
        row < 3,
    ensures
        r == 1 - row,
{
    if row == 0 {
        1
    } else if row == 1 {
        0
    } else {
        -1
    }
}

/// A face frame: three distinct axes, each with a direction of +1 or -1.
pub open spec fn is_frame(spec: FaceSpec) -> bool {
    &&& spec.normal.axis != spec.right.axis
    &&& spec.normal.axis != spec.up.axis
    &&& spec.right.axis != spec.up.axis
    &&& (spec.normal.dir == 1 || spec.normal.dir == -1)
    &&& (spec.right.dir == 1 || spec.right.dir == -1)
    &&& (spec.up.dir == 1 || spec.up.dir == -1)
}

/// Lattice coordinate of the sticker at (`row`, `col`) of the face with
/// frame `spec`: on the normal's side, offset along the right axis by the
/// column and along the up axis by the row (row 0 is the top).
fn coord_for(spec: &FaceSpec, row: u8, col: u8) -> (r: LatticePoint)
    requires
        is_frame(*spec),
        row < 3,
        col < 3,
    ensures
        comp(r, spec.normal.axis) == spec.normal.dir,
        comp(r, spec.right.axis) == spec.right.dir * (col - 1),
        comp(r, spec.up.axis) == spec.up.dir * (1 - row),
{
    let mut point = LatticePoint::zero();
    point.set_component(spec.normal.axis, spec.normal.dir);
    let dx = apply_sign(spec.right.dir, grid_col(col));
    let dy = apply_sign(spec.up.dir, grid_row(row));
    assert(dx == spec.right.dir * (col - 1)) by {
        if spec.right.dir == 1 {
        } else {
            assert(-1 * (col - 1) == -(col - 1));
        }
    }
    assert(dy == spec.up.dir * (1 - row)) by {
        if spec.up.dir == 1 {
        } else {
            assert(-1 * (1 - row) == -(1 - row));
        }
    }
    point.add_component(spec.right.axis, dx);
    point.add_component(spec.up.axis, dy);
    point
}

/// A point with the components that `coord_for` gives, in the frame of
/// face `f`, is that face's grid point.
proof fn lemma_frame_point(p: LatticePoint, f: Face, row: int, col: int)
    requires
        0 <= row < 3,
        0 <= col < 3,
        comp(p, face_layout(f).normal.axis) == face_layout(f).normal.dir,
        comp(p, face_layout(f).right.axis) == face_layout(f).right.dir * (col - 1),
        comp(p, face_layout(f).up.axis) == face_layout(f).up.dir * (1 - row),
    ensures
        p == grid_point(f, row, col),
{
    let g = grid_point(f, row, col);
    match f {
        Face::Up => {
            assert(comp(p, Axis::X) == comp(g, Axis::X));
            assert(comp(p, Axis::Y) == comp(g, Axis::Y));
            assert(comp(p, Axis::Z) == comp(g, Axis::Z));
        },
        Face::Down => {
            assert(comp(p, Axis::X) == comp(g, Axis::X));
            assert(comp(p, Axis::Y) == comp(g, Axis::Y));
            assert(comp(p, Axis::Z) == comp(g, Axis::Z));
        },
        Face::Right => {
            assert(comp(p, Axis::X) == comp(g, Axis::X));
            assert(comp(p, Axis::Y) == comp(g, Axis::Y));
            assert(comp(p, Axis::Z) == comp(g, Axis::Z));
        },
        Face::Left => {
            assert(comp(p, Axis::X) == comp(g, Axis::X));
            assert(comp(p, Axis::Y) == comp(g, Axis::Y));
            assert(comp(p, Axis::Z) == comp(g, Axis::Z));
        },
        Face::Front => {
            assert(comp(p, Axis::X) == comp(g, Axis::X));
            assert(comp(p, Axis::Y) == comp(g, Axis::Y));
            assert(comp(p, Axis::Z) == comp(g, Axis::Z));
        },
        Face::Back => {
            assert(comp(p, Axis::X) == comp(g, Axis::X));
            assert(comp(p, Axis::Y) == comp(g, Axis::Y));
            assert(comp(p, Axis::Z) == comp(g, Axis::Z));
        },
    }
}

/// The descriptor table holds, at each flat index, the facelet that the
/// index names.
pub open spec fn is_facelet_table(t: Seq<FaceletDescriptor>) -> bool {
    &&& t.len() == 54
    &&& forall|i: int|
        0 <= i < 54 ==> #[trigger] t[i].face == facelet_face(i) && t[i].coord == facelet_point(i)
            && t[i].row == (i % 9) / 3 && t[i].col == i % 3
}

/// Builds the table of all 54 facelets: the faces in canonical order, each
/// face's grid row by row.
pub fn facelet_descriptors() -> (r: Vec<FaceletDescriptor>)
    ensures
        is_facelet_table(r@),
{
    let faces = Face::all();
    let mut output: Vec<FaceletDescriptor> = Vec::with_capacity(FACELET_COUNT);
    let mut k: usize = 0;
    while k < faces.len()
        invariant
            faces@ == all_faces(),
            0 <= k <= 6,
            output.len() == 9 * k,
            forall|i: int|
                0 <= i < output.len() ==> #[trigger] output[i].face == facelet_face(i)
                    && output[i].coord == facelet_point(i) && output[i].row == (i % 9) / 3
                    && output[i].col == i % 3,
        decreases 6 - k,
    {
        let face = faces[k];
        assert(face == face_at(k as int));
        let spec = face.spec();
        assert(is_frame(spec));
        let mut row: u8 = 0;
        while row < 3
            invariant
                faces@ == all_faces(),
                k < 6,
                face == face_at(k as int),
                spec == face_layout(face),
                0 <= row <= 3,
                output.len() == 9 * k + 3 * row,
                forall|i: int|
                    0 <= i < output.len() ==> #[trigger] output[i].face == facelet_face(i)
                        && output[i].coord == facelet_point(i) && output[i].row == (i % 9) / 3
                        && output[i].col == i % 3,
            decreases 3 - row,
        {
            let mut col: u8 = 0;
            while col < 3
                invariant
                    faces@ == all_faces(),
                    k < 6,
                    face == face_at(k as int),
                    spec == face_layout(face),
                    0 <= row < 3,
                    0 <= col <= 3,
                    output.len() == 9 * k + 3 * row + col,
                    forall|i: int|
                        0 <= i < output.len() ==> #[trigger] output[i].face == facelet_face(i)
                            && output[i].coord == facelet_point(i) && output[i].row == (i % 9)
                            / 3 && output[i].col == i % 3,
                decreases 3 - col,
            {
                let coord = coord_for(&spec, row, col);
                proof {
                    lemma_join_index(k as int, row as int, col as int);
                    lemma_frame_point(coord, face, row as int, col as int);
                }
                output.push(FaceletDescriptor { face: spec.face, coord, row, col });
                col = col + 1;
            }
            row = row + 1;
        }
        k = k + 1;
    }
    output
}

/// The flat index of the facelet at `coord` on `face`.
pub fn facelet_index(coord: LatticePoint, face: Face) -> (r: usize)
    requires
        is_facelet(coord, face),
    ensures
        r == index_of(coord, face),
        r < 54,
{
    proof {
        lemma_facelet_bijection();
    }
    let l = face.spec();
    let up = apply_sign(l.up.dir, coord.component(l.up.axis));
    let right = apply_sign(l.right.dir, coord.component(l.right.axis));
    let row = (1 - up) as usize;
    let col = (right + 1) as usize;
    9 * face_position(face) + 3 * row + col
}


#[derive(Clone, Copy, Debug, PartialEq, Eq, Hash, Structural)]
pub enum RotationDir {
    Clockwise,
    CounterClockwise,
}

pub open spec fn opposite(d: RotationDir) -> RotationDir {
    match d {
        RotationDir::Clockwise => RotationDir::CounterClockwise,
        RotationDir::CounterClockwise => RotationDir::Clockwise,
    }
}

/// A quarter turn of the pair `(a, b)`: clockwise `(b, -a)`,
/// counter-clockwise `(-b, a)`.
pub open spec fn turn_pair(a: i8, b: i8, d: RotationDir) -> (i8, i8) {
    match d {
        RotationDir::Clockwise => (b, (-a) as i8),
        RotationDir::CounterClockwise => ((-b) as i8, a),
    }
}

/// A quarter turn of `p` about `axis`; the component along `axis` stays.
pub open spec fn rotate_point(p: LatticePoint, axis: Axis, d: RotationDir) -> LatticePoint {
    match axis {
        Axis::X => LatticePoint {
            x: p.x,
            y: turn_pair(p.y, p.z, d).0,
            z: turn_pair(p.y, p.z, d).1,
        },
        Axis::Y => LatticePoint {
            x: turn_pair(p.x, p.z, d).0,
            y: p.y,
            z: turn_pair(p.x, p.z, d).1,
        },
        Axis::Z => LatticePoint {
            x: turn_pair(p.x, p.y, d).0,
            y: turn_pair(p.x, p.y, d).1,
            z: p.z,
        },
    }
}

/// Outward unit normal of a face.
pub open spec fn face_normal(f: Face) -> LatticePoint {
    match f {
        Face::Up => LatticePoint { x: 0, y: 1, z: 0 },
        Face::Down => LatticePoint { x: 0, y: -1i8, z: 0 },
        Face::Right => LatticePoint { x: 1, y: 0, z: 0 },
        Face::Left => LatticePoint { x: -1i8, y: 0, z: 0 },
        Face::Front => LatticePoint { x: 0, y: 0, z: 1 },
        Face::Back => LatticePoint { x: 0, y: 0, z: -1i8 },
    }
}

/// `n` is the outward normal of some face.
pub open spec fn is_face_normal(n: LatticePoint) -> bool {
    exists|f: Face| face_normal(f) == n
}

/// The face whose outward normal is `n` (meaningful when `is_face_normal(n)`).
pub open spec fn face_of_normal(n: LatticePoint) -> Face {
    if n == face_normal(Face::Up) {
        Face::Up
    } else if n == face_normal(Face::Down) {
        Face::Down
    } else if n == face_normal(Face::Right) {
        Face::Right
    } else if n == face_normal(Face::Left) {
        Face::Left
    } else if n == face_normal(Face::Front) {
        Face::Front
    } else {
        Face::Back
    }
}

/// The face that `f` is carried to by a quarter turn about `axis`.
pub open spec fn rotate_face_to(f: Face, axis: Axis, d: RotationDir) -> Face {
    face_of_normal(rotate_point(face_normal(f), axis, d))
}

/// A quarter turn maps facelets to facelets, keeps the layer, is undone by
/// the opposite turn, and returns to the start after four applications.
proof fn lemma_rotate_facelet(p: LatticePoint, f: Face, axis: Axis, d: RotationDir)
    requires
        is_facelet(p, f),
    ensures
        is_face_normal(rotate_point(face_normal(f), axis, d)),
        is_facelet(rotate_point(p, axis, d), rotate_face_to(f, axis, d)),
        comp(rotate_point(p, axis, d), axis) == comp(p, axis),
        rotate_point(rotate_point(p, axis, d), axis, opposite(d)) == p,
        rotate_face_to(rotate_face_to(f, axis, d), axis, opposite(d)) == f,
        rotate_point(rotate_point(rotate_point(rotate_point(p, axis, d), axis, d), axis, d), axis, d)
            == p,
        rotate_face_to(
            rotate_face_to(rotate_face_to(rotate_face_to(f, axis, d), axis, d), axis, d),
            axis,
            d,
        ) == f,
{
    let n = rotate_point(face_normal(f), axis, d);
    assert(face_normal(face_of_normal(n)) == n) by {
        match f {
            Face::Up => {},
            Face::Down => {},
            Face::Right => {},
            Face::Left => {},
            Face::Front => {},
            Face::Back => {},
        }
    }
    assert(is_face_normal(n));
    match f {
        Face::Up => {},
        Face::Down => {},
        Face::Right => {},
        Face::Left => {},
        Face::Front => {},
        Face::Back => {},
    }
}

/// Flat index that the facelet at index `i` is carried to by a quarter
/// turn about `axis`.
#[verifier::opaque]
pub open spec fn turn_target(i: int, axis: Axis, d: RotationDir) -> int {
    index_of(rotate_point(facelet_point(i), axis, d), rotate_face_to(facelet_face(i), axis, d))
}

/// Whether the facelet at index `i` lies in the layer `layer` along `axis`.
pub open spec fn in_layer(i: int, axis: Axis, layer: int) -> bool {
    comp(facelet_point(i), axis) == layer
}

proof fn lemma_turn_target(i: int, axis: Axis, d: RotationDir)
    requires
        0 <= i < 54,
    ensures
        0 <= turn_target(i, axis, d) < 54,
        facelet_point(turn_target(i, axis, d)) == rotate_point(facelet_point(i), axis, d),
        facelet_face(turn_target(i, axis, d)) == rotate_face_to(facelet_face(i), axis, d),
        comp(facelet_point(turn_target(i, axis, d)), axis) == comp(facelet_point(i), axis),
        turn_target(turn_target(i, axis, d), axis, opposite(d)) == i,
{
    reveal(turn_target);
    lemma_facelet_bijection();
    lemma_rotate_facelet(facelet_point(i), facelet_face(i), axis, d);
    let t = turn_target(i, axis, d);
    assert(is_facelet(facelet_point(i), facelet_face(i)));
    assert(is_facelet(
        rotate_point(facelet_point(i), axis, d),
        rotate_face_to(facelet_face(i), axis, d),
    ));
    let u = turn_target(t, axis, opposite(d));
    assert(facelet_point(u) == facelet_point(i));
    assert(facelet_face(u) == facelet_face(i));
    assert(index_of(facelet_point(i), facelet_face(i)) == i);
}

proof fn lemma_turn_target_four(i: int, axis: Axis, d: RotationDir)
    requires
        0 <= i < 54,
    ensures
        turn_target(turn_target(turn_target(turn_target(i, axis, d), axis, d), axis, d), axis, d)
            == i,
{
    reveal(turn_target);
    lemma_facelet_bijection();
    lemma_turn_target(i, axis, d);
    let t1 = turn_target(i, axis, d);
    lemma_turn_target(t1, axis, d);
    let t2 = turn_target(t1, axis, d);
    lemma_turn_target(t2, axis, d);
    let t3 = turn_target(t2, axis, d);
    lemma_turn_target(t3, axis, d);
    let t4 = turn_target(t3, axis, d);
    lemma_rotate_facelet(facelet_point(i), facelet_face(i), axis, d);
    assert(is_facelet(facelet_point(i), facelet_face(i)));
    assert(index_of(facelet_point(i), facelet_face(i)) == i);
    assert(facelet_point(t4) == facelet_point(i));
    assert(facelet_face(t4) == facelet_face(i));
}


/// The colors after a quarter turn of layer `layer` about `axis`: the sticker
/// that ends at a slot of the layer comes from the slot that the turn carries
/// onto it; stickers outside the layer stay.
#[verifier::opaque]
pub open spec fn rotate_layer_spec(
    s: Seq<FaceColor>,
    axis: Axis,
    layer: int,
    d: RotationDir,
) -> Seq<FaceColor> {
    Seq::new(
        s.len(),
        |j: int|
            if in_layer(j, axis, layer) {
                s[turn_target(j, axis, opposite(d))]
            } else {
                s[j]
            },
    )
}

proof fn lemma_layer_undo(s: Seq<FaceColor>, axis: Axis, layer: int, d: RotationDir)
    requires
        s.len() == 54,
    ensures
        rotate_layer_spec(rotate_layer_spec(s, axis, layer, d), axis, layer, opposite(d)) == s,
{
    reveal(rotate_layer_spec);
    let r1 = rotate_layer_spec(s, axis, layer, d);
    let r2 = rotate_layer_spec(r1, axis, layer, opposite(d));
    assert forall|j: int| 0 <= j < 54 implies r2[j] == s[j] by {
        if in_layer(j, axis, layer) {
            lemma_turn_target(j, axis, d);
            assert(opposite(opposite(d)) == d);
        }
    }
    assert(r2 =~= s);
}

proof fn lemma_layer_four(s: Seq<FaceColor>, axis: Axis, layer: int, d: RotationDir)
    requires
        s.len() == 54,
    ensures
        rotate_layer_spec(
            rotate_layer_spec(
                rotate_layer_spec(rotate_layer_spec(s, axis, layer, d), axis, layer, d),
                axis,
                layer,
                d,
            ),
            axis,
            layer,
            d,
        ) == s,
{
    reveal(rotate_layer_spec);
    let e = opposite(d);
    let r1 = rotate_layer_spec(s, axis, layer, d);
    let r2 = rotate_layer_spec(r1, axis, layer, d);
    let r3 = rotate_layer_spec(r2, axis, layer, d);
    let r4 = rotate_layer_spec(r3, axis, layer, d);
    assert forall|j: int| 0 <= j < 54 implies r4[j] == s[j] by {
        if in_layer(j, axis, layer) {
            lemma_turn_target(j, axis, e);
            let t1 = turn_target(j, axis, e);
            lemma_turn_target(t1, axis, e);
            let t2 = turn_target(t1, axis, e);
            lemma_turn_target(t2, axis, e);
            let t3 = turn_target(t2, axis, e);
            lemma_turn_target_four(j, axis, e);
            assert(r4[j] == r3[t1]);
            assert(r3[t1] == r2[t2]);
            assert(r2[t2] == r1[t3]);
            assert(r1[t3] == s[turn_target(t3, axis, e)]);
        }
    }
    assert(r4 =~= s);
}

fn rotate_pair(a: i8, b: i8, dir: RotationDir) -> (r: (i8, i8))
    requires
        -1 <= a <= 1,
        -1 <= b <= 1,
    ensures
        r == turn_pair(a, b, dir),
{
    match dir {
        RotationDir::Clockwise => (b, -a),
        RotationDir::CounterClockwise => (-b, a),
    }
}

fn rotate_coord(point: LatticePoint, axis: Axis, dir: RotationDir) -> (r: LatticePoint)
    requires
        in_unit_cube(point),
    ensures
        r == rotate_point(point, axis, dir),
{
    match axis {
        Axis::X => {
            let (new_y, new_z) = rotate_pair(point.y, point.z, dir);
            LatticePoint::new(point.x, new_y, new_z)
        },
        Axis::Y => {
            let (new_x, new_z) = rotate_pair(point.x, point.z, dir);
            LatticePoint::new(new_x, point.y, new_z)
        },
        Axis::Z => {
            let (new_x, new_y) = rotate_pair(point.x, point.y, dir);
            LatticePoint::new(new_x, new_y, point.z)
        },
    }
}

fn rotate_vector(vec: LatticePoint, axis: Axis, dir: RotationDir) -> (r: LatticePoint)
    requires
        in_unit_cube(vec),
    ensures
        r == rotate_point(vec, axis, dir),
{
    rotate_coord(vec, axis, dir)
}

fn face_to_normal(face: Face) -> (r: LatticePoint)
    ensures
        r == face_normal(face),
{
    match face {
        Face::Up => LatticePoint::new(0, 1, 0),
        Face::Down => LatticePoint::new(0, -1, 0),
        Face::Right => LatticePoint::new(1, 0, 0),
        Face::Left => LatticePoint::new(-1, 0, 0),
        Face::Front => LatticePoint::new(0, 0, 1),
        Face::Back => LatticePoint::new(0, 0, -1),
    }
}

fn face_from_normal(normal: LatticePoint) -> (r: Face)
    requires
        is_face_normal(normal),
    ensures
        r == face_of_normal(normal),
        face_normal(r) == normal,
{
    if normal.x == 0 && normal.y == 1 && normal.z == 0 {
        Face::Up
    } else if normal.x == 0 && normal.y == -1 && normal.z == 0 {
        Face::Down
    } else if normal.x == 1 && normal.y == 0 && normal.z == 0 {
        Face::Right
    } else if normal.x == -1 && normal.y == 0 && normal.z == 0 {
        Face::Left
    } else if normal.x == 0 && normal.y == 0 && normal.z == 1 {
        Face::Front
    } else {
        Face::Back
    }
}

fn rotate_face(face: Face, axis: Axis, dir: RotationDir) -> (r: Face)
    ensures
        r == rotate_face_to(face, axis, dir),
{
    let normal = face_to_normal(face);
    let rotated_normal = rotate_vector(normal, axis, dir);
    proof {
        // The centre facelet of `face` witnesses that the turned normal is a face's normal.
        let p = facelet_point(9 * face_index(face) + 4);
        lemma_facelet_bijection();
        lemma_rotate_facelet(p, face, axis, dir);
    }
    face_from_normal(rotated_normal)
}

/// Quarter turn of one layer: each sticker of the layer is copied to the slot
/// that the turn carries it to, in a fresh buffer that then replaces the old
/// one, so that no source slot is overwritten before it is read.
fn rotate_layer(
    stickers: &mut Vec<FaceColor>,
    table: &Vec<FaceletDescriptor>,
    axis: Axis,
    layer: i8,
    dir: RotationDir,
)
    requires
        old(stickers)@.len() == 54,
        is_facelet_table(table@),
    ensures
        final(stickers)@ == rotate_layer_spec(old(stickers)@, axis, layer as int, dir),
{
    let ghost s = stickers@;
    let mut updated = stickers.clone();
    let mut idx: usize = 0;
    proof {
        assert forall|j: int| 0 <= j < 54 implies 0 <= #[trigger] turn_target(
            j,
            axis,
            opposite(dir),
        ) by {
            lemma_turn_target(j, axis, opposite(dir));
        }
    }
    while idx < FACELET_COUNT
        invariant
            s == stickers@,
            s.len() == 54,
            is_facelet_table(table@),
            0 <= idx <= 54,
            updated@.len() == 54,
            forall|j: int|
                0 <= j < 54 ==> #[trigger] updated@[j] == if in_layer(j, axis, layer as int)
                    && turn_target(j, axis, opposite(dir)) < idx {
                    s[turn_target(j, axis, opposite(dir))]
                } else {
                    s[j]
                },
        decreases 54 - idx,
    {
        let desc = table[idx];
        proof {
            lemma_facelet_bijection();
            lemma_turn_target(idx as int, axis, dir);
            lemma_rotate_facelet(desc.coord, desc.face, axis, dir);
            assert(is_facelet(desc.coord, desc.face));
        }
        if desc.coord.component(axis) == layer {
            let new_coord = rotate_coord(desc.coord, axis, dir);
            let new_face = rotate_face(desc.face, axis, dir);
            let target = facelet_index(new_coord, new_face);
            proof {
                reveal(turn_target);
                assert(target == turn_target(idx as int, axis, dir));
                assert forall|j: int|
                    0 <= j < 54 && in_layer(j, axis, layer as int) && turn_target(
                        j,
                        axis,
                        opposite(dir),
                    ) == idx implies j == target by {
                    lemma_turn_target(j, axis, opposite(dir));
                    assert(opposite(opposite(dir)) == dir);
                }
            }
            updated.set(target, stickers[idx]);
        } else {
            proof {
                assert forall|j: int|
                    0 <= j < 54 && in_layer(j, axis, layer as int) implies turn_target(
                    j,
                    axis,
                    opposite(dir),
                ) != idx by {
                    lemma_turn_target(j, axis, opposite(dir));
                }
            }
        }
        idx = idx + 1;
    }
    proof {
        assert forall|j: int| 0 <= j < 54 && in_layer(j, axis, layer as int) implies turn_target(
            j,
            axis,
            opposite(dir),
        ) < 54 by {
            lemma_turn_target(j, axis, opposite(dir));
        }
    }
    *stickers = updated;
    reveal(rotate_layer_spec);
    assert(stickers@ =~= rotate_layer_spec(s, axis, layer as int, dir));
}


#[derive(Clone, Copy, Debug)]
struct MoveDef {
    axis: Axis,
    layer: i8,
    dir: RotationDir,
    turns: u8,
}

/// One of the 18 face turns: a quarter turn clockwise, counter-clockwise
/// (`Prime`) or a half turn (`2`) of one outer layer.
#[derive(Clone, Copy, Debug, PartialEq, Eq, Hash, Structural)]
pub enum Move {
    U,
    UPrime,
    U2,
    D,
    DPrime,
    D2,
    R,
    RPrime,
    R2,
    L,
    LPrime,
    L2,
    F,
    FPrime,
    F2,
    B,
    BPrime,
    B2,
}

/// The turn that a move performs: rotation axis, layer along it, direction
/// of each quarter turn, and number of quarter turns.
pub open spec fn move_def(m: Move) -> (Axis, i8, RotationDir, u8) {
    match m {
        Move::U => (Axis::Y, 1i8, RotationDir::Clockwise, 1u8),
        Move::UPrime => (Axis::Y, 1i8, RotationDir::CounterClockwise, 1u8),
        Move::U2 => (Axis::Y, 1i8, RotationDir::Clockwise, 2u8),
        Move::D => (Axis::Y, -1i8, RotationDir::CounterClockwise, 1u8),
        Move::DPrime => (Axis::Y, -1i8, RotationDir::Clockwise, 1u8),
        Move::D2 => (Axis::Y, -1i8, RotationDir::CounterClockwise, 2u8),
        Move::R => (Axis::X, 1i8, RotationDir::Clockwise, 1u8),
        Move::RPrime => (Axis::X, 1i8, RotationDir::CounterClockwise, 1u8),
        Move::R2 => (Axis::X, 1i8, RotationDir::Clockwise, 2u8),
        Move::L => (Axis::X, -1i8, RotationDir::CounterClockwise, 1u8),
        Move::LPrime => (Axis::X, -1i8, RotationDir::Clockwise, 1u8),
        Move::L2 => (Axis::X, -1i8, RotationDir::CounterClockwise, 2u8),
        Move::F => (Axis::Z, 1i8, RotationDir::Clockwise, 1u8),
        Move::FPrime => (Axis::Z, 1i8, RotationDir::CounterClockwise, 1u8),
        Move::F2 => (Axis::Z, 1i8, RotationDir::Clockwise, 2u8),
        Move::B => (Axis::Z, -1i8, RotationDir::CounterClockwise, 1u8),
        Move::BPrime => (Axis::Z, -1i8, RotationDir::Clockwise, 1u8),
        Move::B2 => (Axis::Z, -1i8, RotationDir::CounterClockwise, 2u8),
    }
}

pub open spec fn move_axis(m: Move) -> Axis {
    move_def(m).0
}

/// The move that undoes `m`.
pub open spec fn inverse_of(m: Move) -> Move {
    match m {
        Move::U => Move::UPrime,
        Move::UPrime => Move::U,
        Move::U2 => Move::U2,
        Move::D => Move::DPrime,
        Move::DPrime => Move::D,
        Move::D2 => Move::D2,
        Move::R => Move::RPrime,
        Move::RPrime => Move::R,
        Move::R2 => Move::R2,
        Move::L => Move::LPrime,
        Move::LPrime => Move::L,
        Move::L2 => Move::L2,
        Move::F => Move::FPrime,
        Move::FPrime => Move::F,
        Move::F2 => Move::F2,
        Move::B => Move::BPrime,
        Move::BPrime => Move::B,
        Move::B2 => Move::B2,
    }
}

/// The move at position `k` of the canonical move order.
pub open spec fn move_at(k: int) -> Move {
    if k == 0 {
        Move::U
    } else if k == 1 {
        Move::UPrime
    } else if k == 2 {
        Move::U2
    } else if k == 3 {
        Move::D
    } else if k == 4 {
        Move::DPrime
    } else if k == 5 {
        Move::D2
    } else if k == 6 {
        Move::R
    } else if k == 7 {
        Move::RPrime
    } else if k == 8 {
        Move::R2
    } else if k == 9 {
        Move::L
    } else if k == 10 {
        Move::LPrime
    } else if k == 11 {
        Move::L2
    } else if k == 12 {
        Move::F
    } else if k == 13 {
        Move::FPrime
    } else if k == 14 {
        Move::F2
    } else if k == 15 {
        Move::B
    } else if k == 16 {
        Move::BPrime
    } else {
        Move::B2
    }
}

/// All moves, in canonical order.
pub open spec fn all_moves() -> Seq<Move> {
    Seq::new(18, |k: int| move_at(k))
}

/// The clockwise quarter turn of face `f`.
pub open spec fn quarter_turn(f: Face) -> Move {
    match f {
        Face::Up => Move::U,
        Face::Down => Move::D,
        Face::Right => Move::R,
        Face::Left => Move::L,
        Face::Front => Move::F,
        Face::Back => Move::B,
    }
}

/// The half turn of face `f`.
pub open spec fn half_turn(f: Face) -> Move {
    match f {
        Face::Up => Move::U2,
        Face::Down => Move::D2,
        Face::Right => Move::R2,
        Face::Left => Move::L2,
        Face::Front => Move::F2,
        Face::Back => Move::B2,
    }
}

/// The colors after move `m`: its quarter turn, once or twice.
#[verifier::opaque]
pub open spec fn apply_move_spec(s: Seq<FaceColor>, m: Move) -> Seq<FaceColor> {
    let (axis, layer, dir, turns) = move_def(m);
    let once = rotate_layer_spec(s, axis, layer as int, dir);
    if turns == 2 {
        rotate_layer_spec(once, axis, layer as int, dir)
    } else {
        once
    }
}

/// The colors after the moves of `ms`, in order.
pub open spec fn apply_moves(s: Seq<FaceColor>, ms: Seq<Move>) -> Seq<FaceColor>
    decreases ms.len(),
{
    if ms.len() == 0 {
        s
    } else {
        apply_move_spec(apply_moves(s, ms.drop_last()), ms.last())
    }
}

/// The solved coloring: every facelet shows its face's canonical color.
pub open spec fn solved_state() -> Seq<FaceColor> {
    Seq::new(54, |i: int| canonical_color(facelet_face(i)))
}

/// Every face's nine stickers show that face's canonical color.
pub open spec fn is_solved_state(s: Seq<FaceColor>) -> bool {
    s.len() == 54 && forall|i: int| 0 <= i < 54 ==> #[trigger] s[i] == canonical_color(
        facelet_face(i),
    )
}

/// How many stickers of `s` show color `c`.
pub open spec fn color_count(s: Seq<FaceColor>, c: FaceColor) -> nat {
    Set::new(|i: int| 0 <= i < s.len() && s[i] == c).len()
}

impl Move {
    pub fn all() -> (r: Vec<Move>)
        ensures
            r@ == all_moves(),
    {
        let r = vec![Move::U, Move::UPrime, Move::U2, Move::D, Move::DPrime, Move::D2, Move::R, Move::RPrime, Move::R2, Move::L, Move::LPrime, Move::L2, Move::F, Move::FPrime, Move::F2, Move::B, Move::BPrime, Move::B2];
        assert(r@ =~= all_moves());
        r
    }

    /// The move that undoes this one.
    pub fn inverse(self) -> (r: Move)
        ensures
            r == inverse_of(self),
    {
        match self {
            Move::U => Move::UPrime,
            Move::UPrime => Move::U,
            Move::U2 => Move::U2,
            Move::D => Move::DPrime,
            Move::DPrime => Move::D,
            Move::D2 => Move::D2,
            Move::R => Move::RPrime,
            Move::RPrime => Move::R,
            Move::R2 => Move::R2,
            Move::L => Move::LPrime,
            Move::LPrime => Move::L,
            Move::L2 => Move::L2,
            Move::F => Move::FPrime,
            Move::FPrime => Move::F,
            Move::F2 => Move::F2,
            Move::B => Move::BPrime,
            Move::BPrime => Move::B,
            Move::B2 => Move::B2,
        }
    }

    fn def(self) -> (r: MoveDef)
        ensures
            (r.axis, r.layer, r.dir, r.turns) == move_def(self),
    {
        match self {
            Move::U => MoveDef {
                axis: Axis::Y,
                layer: 1,
                dir: RotationDir::Clockwise,
                turns: 1,
            },
            Move::UPrime => MoveDef {
                axis: Axis::Y,
                layer: 1,
                dir: RotationDir::CounterClockwise,
                turns: 1,
            },
            Move::U2 => MoveDef {
                axis: Axis::Y,
                layer: 1,
                dir: RotationDir::Clockwise,
                turns: 2,
            },
            Move::D => MoveDef {
                axis: Axis::Y,
                layer: -1,
                dir: RotationDir::CounterClockwise,
                turns: 1,
            },
            Move::DPrime => MoveDef {
                axis: Axis::Y,
                layer: -1,
                dir: RotationDir::Clockwise,
                turns: 1,
            },
            Move::D2 => MoveDef {
                axis: Axis::Y,
                layer: -1,
                dir: RotationDir::CounterClockwise,
                turns: 2,
            },
            Move::R => MoveDef {
                axis: Axis::X,
                layer: 1,
                dir: RotationDir::Clockwise,
                turns: 1,
            },
            Move::RPrime => MoveDef {
                axis: Axis::X,
                layer: 1,
                dir: RotationDir::CounterClockwise,
                turns: 1,
            },
            Move::R2 => MoveDef {
                axis: Axis::X,
                layer: 1,
                dir: RotationDir::Clockwise,
                turns: 2,
            },
            Move::L => MoveDef {
                axis: Axis::X,
                layer: -1,
                dir: RotationDir::CounterClockwise,
                turns: 1,
            },
            Move::LPrime => MoveDef {
                axis: Axis::X,
                layer: -1,
                dir: RotationDir::Clockwise,
                turns: 1,
            },
            Move::L2 => MoveDef {
                axis: Axis::X,
                layer: -1,
                dir: RotationDir::CounterClockwise,
                turns: 2,
            },
            Move::F => MoveDef {
                axis: Axis::Z,
                layer: 1,
                dir: RotationDir::Clockwise,
                turns: 1,
            },
            Move::FPrime => MoveDef {
                axis: Axis::Z,
                layer: 1,
                dir: RotationDir::CounterClockwise,
                turns: 1,
            },
            Move::F2 => MoveDef {
                axis: Axis::Z,
                layer: 1,
                dir: RotationDir::Clockwise,
                turns: 2,
            },
            Move::B => MoveDef {
                axis: Axis::Z,
                layer: -1,
                dir: RotationDir::CounterClockwise,
                turns: 1,
            },
            Move::BPrime => MoveDef {
                axis: Axis::Z,
                layer: -1,
                dir: RotationDir::Clockwise,
                turns: 1,
            },
            Move::B2 => MoveDef {
                axis: Axis::Z,
                layer: -1,
                dir: RotationDir::CounterClockwise,
                turns: 2,
            },
        }
    }
}

/// A quarter turn and the opposite quarter turn of the same layer cancel,
/// and so do two half turns.
pub proof fn lemma_inverse_restores(s: Seq<FaceColor>, m: Move)
    requires
        s.len() == 54,
    ensures
        apply_move_spec(apply_move_spec(s, m), inverse_of(m)) == s,
{
    reveal(apply_move_spec);
    let (axis, layer, dir, turns) = move_def(m);
    if turns == 2 {
        assert(move_def(inverse_of(m)) == move_def(m));
        lemma_layer_four(s, axis, layer as int, dir);
    } else {
        assert(move_def(inverse_of(m)) == (axis, layer, opposite(dir), 1u8));
        lemma_layer_undo(s, axis, layer as int, dir);
    }
}

/// Four applications of a quarter-turn move restore the colors.
pub proof fn lemma_quarter_turn_four_times(s: Seq<FaceColor>, m: Move)
    requires
        s.len() == 54,
        move_def(m).3 == 1,
    ensures
        apply_move_spec(apply_move_spec(apply_move_spec(apply_move_spec(s, m), m), m), m) == s,
{
    reveal(apply_move_spec);
    let (axis, layer, dir, turns) = move_def(m);
    lemma_layer_four(s, axis, layer as int, dir);
}

/// A face's half turn gives the same colors as its quarter turn done twice.
pub proof fn lemma_half_turn_is_two_quarters(s: Seq<FaceColor>, f: Face)
    ensures
        apply_move_spec(s, half_turn(f)) == apply_move_spec(
            apply_move_spec(s, quarter_turn(f)),
            quarter_turn(f),
        ),
{
    reveal(apply_move_spec);
}


/// The stickers of `s` that show color `c`, by index.
pub open spec fn color_slots(s: Seq<FaceColor>, c: FaceColor) -> Set<int> {
    Set::new(|i: int| 0 <= i < s.len() && s[i] == c)
}

proof fn lemma_color_slots_finite(s: Seq<FaceColor>, c: FaceColor)
    requires
        s.len() == 54,
    ensures
        color_slots(s, c).finite(),
        color_count(s, c) == color_slots(s, c).len(),
{
    lemma_int_range(0, 54);
    assert(color_slots(s, c).subset_of(set_int_range(0, 54)));
    lemma_len_subset(color_slots(s, c), set_int_range(0, 54));
    assert(color_slots(s, c) =~= Set::new(|i: int| 0 <= i < s.len() && s[i] == c));
}

proof fn lemma_layer_keeps_counts(
    s: Seq<FaceColor>,
    axis: Axis,
    layer: int,
    d: RotationDir,
    c: FaceColor,
)
    requires
        s.len() == 54,
    ensures
        rotate_layer_spec(s, axis, layer, d).len() == 54,
        color_count(rotate_layer_spec(s, axis, layer, d), c) == color_count(s, c),
{
    reveal(rotate_layer_spec);
    let r = rotate_layer_spec(s, axis, layer, d);
    let src = color_slots(s, c);
    let dst = color_slots(r, c);
    let f = |i: int|
        if in_layer(i, axis, layer) {
            turn_target(i, axis, d)
        } else {
            i
        };
    lemma_color_slots_finite(s, c);
    lemma_color_slots_finite(r, c);
    assert forall|a: int, b: int| src.contains(a) && src.contains(b) && #[trigger] f(a) == #[trigger] f(
        b,
    ) implies a == b by {
        lemma_turn_target(a, axis, d);
        lemma_turn_target(b, axis, d);
    }
    assert(injective_on(f, src));
    assert forall|j: int| dst.contains(j) implies src.map(f).contains(j) by {
        lemma_turn_target(j, axis, opposite(d));
        assert(opposite(opposite(d)) == d);
        let i = if in_layer(j, axis, layer) {
            turn_target(j, axis, opposite(d))
        } else {
            j
        };
        assert(src.contains(i));
        assert(f(i) == j);
    }
    assert forall|j: int| src.map(f).contains(j) implies dst.contains(j) by {
        let i = choose|i: int| src.contains(i) && f(i) == j;
        lemma_turn_target(i, axis, d);
    }
    assert(src.map(f) =~= dst);
    lemma_map_size(src, dst, f);
}

proof fn lemma_move_keeps_counts(s: Seq<FaceColor>, m: Move, c: FaceColor)
    requires
        s.len() == 54,
    ensures
        apply_move_spec(s, m).len() == 54,
        color_count(apply_move_spec(s, m), c) == color_count(s, c),
{
    reveal(apply_move_spec);
    let (axis, layer, dir, turns) = move_def(m);
    lemma_layer_keeps_counts(s, axis, layer as int, dir, c);
    let once = rotate_layer_spec(s, axis, layer as int, dir);
    lemma_layer_keeps_counts(once, axis, layer as int, dir, c);
}

/// Moves only relocate stickers: after any sequence of moves each color
/// shows on as many stickers as before.
pub proof fn lemma_moves_keep_counts(s: Seq<FaceColor>, ms: Seq<Move>, c: FaceColor)
    requires
        s.len() == 54,
    ensures
        apply_moves(s, ms).len() == 54,
        color_count(apply_moves(s, ms), c) == color_count(s, c),
    decreases ms.len(),
{
    if ms.len() > 0 {
        lemma_moves_keep_counts(s, ms.drop_last(), c);
        lemma_move_keeps_counts(apply_moves(s, ms.drop_last()), ms.last(), c);
    }
}

/// The solved cube shows every color on exactly nine stickers, and is solved.
pub proof fn lemma_solved_state(c: FaceColor)
    ensures
        is_solved_state(solved_state()),
        color_count(solved_state(), c) == 9,
{
    let s = solved_state();
    let k: int = match c {
        FaceColor::White => 0,
        FaceColor::Yellow => 1,
        FaceColor::Red => 2,
        FaceColor::Orange => 3,
        FaceColor::Green => 4,
        FaceColor::Blue => 5,
    };
    assert forall|i: int| 0 <= i < 54 implies (s[i] == c <==> 9 * k <= i < 9 * k + 9) by {
        lemma_split_index(i);
    }
    assert(color_slots(s, c) =~= set_int_range(9 * k, 9 * k + 9));
    lemma_int_range(9 * k, 9 * k + 9);
    lemma_color_slots_finite(s, c);
}

/// Whatever moves are made from the solved cube, every color shows on
/// exactly nine of the 54 stickers.
pub proof fn lemma_colors_conserved(ms: Seq<Move>, c: FaceColor)
    ensures
        apply_moves(solved_state(), ms).len() == 54,
        color_count(apply_moves(solved_state(), ms), c) == 9,
{
    lemma_solved_state(c);
    lemma_moves_keep_counts(solved_state(), ms, c);
}


/// Move `k` of `ms` turns about another axis than move `k - 1`.
pub open spec fn axis_changes_at(ms: Seq<Move>, k: int) -> bool {
    move_axis(ms[k]) != move_axis(ms[k - 1])
}

/// A face whose normal is square to `axis`.
spec fn side_face(axis: Axis) -> Face {
    match axis {
        Axis::X => Face::Front,
        Axis::Y => Face::Front,
        Axis::Z => Face::Up,
    }
}

/// The middle sticker of `side_face(axis)` in the layer `layer` along `axis`.
spec fn side_point(axis: Axis, layer: i8) -> LatticePoint {
    match axis {
        Axis::X => LatticePoint { x: layer, y: 0, z: 1 },
        Axis::Y => LatticePoint { x: 0, y: layer, z: 1 },
        Axis::Z => LatticePoint { x: 0, y: 1, z: layer },
    }
}

/// Any single move from the solved cube leaves it unsolved: a sticker of a
/// side face is carried onto another face.
pub proof fn lemma_one_move_unsolves(m: Move)
    ensures
        !is_solved_state(apply_move_spec(solved_state(), m)),
{
    reveal(apply_move_spec);
    reveal(rotate_layer_spec);
    let (a, l, d, turns) = move_def(m);
    let f = side_face(a);
    let p = side_point(a, l);
    assert(l == 1 || l == -1);
    assert(is_facelet(p, f));
    lemma_facelet_bijection();
    let j = index_of(p, f);
    assert(facelet_point(j) == p && facelet_face(j) == f);
    lemma_turn_target(j, a, d);
    let t = turn_target(j, a, d);
    lemma_turn_target(t, a, d);
    let t2 = turn_target(t, a, d);
    let s = solved_state();
    let r1 = rotate_layer_spec(s, a, l as int, d);
    assert(in_layer(t, a, l as int));
    assert(r1[t] == s[j]);
    assert(s[j] == canonical_color(f));
    let f1 = rotate_face_to(f, a, d);
    let f2 = rotate_face_to(f1, a, d);
    assert(f1 != f && f2 != f) by {
        match a {
            Axis::X => {},
            Axis::Y => {},
            Axis::Z => {},
        }
    }
    if turns == 2 {
        let r2 = rotate_layer_spec(r1, a, l as int, d);
        assert(in_layer(t2, a, l as int));
        lemma_turn_target(t2, a, opposite(d));
        assert(opposite(opposite(d)) == d);
        assert(turn_target(t2, a, opposite(d)) == t);
        assert(r2[t2] == r1[t]);
        assert(facelet_face(t2) == f2);
        assert(r2[t2] != canonical_color(facelet_face(t2)));
    } else {
        assert(facelet_face(t) == f1);
        assert(r1[t] != canonical_color(facelet_face(t)));
    }
}

/// No two consecutive moves of `ms` turn about the same axis.
pub open spec fn no_repeated_axis(ms: Seq<Move>) -> bool {
    forall|k: int| 1 <= k < ms.len() ==> #[trigger] axis_changes_at(ms, k)
}

/// The first `n` moves of the canonical order whose axis differs from `last`.
pub open spec fn candidates_upto(last: Option<Axis>, n: int) -> Seq<Move>
    decreases n,
{
    if n <= 0 {
        seq![]
    } else {
        let prev = candidates_upto(last, n - 1);
        let m = move_at(n - 1);
        if last == Some(move_axis(m)) {
            prev
        } else {
            prev.push(m)
        }
    }
}

/// The moves that may follow a move about `last` in a scramble, in canonical
/// order.
pub open spec fn scramble_candidates(last: Option<Axis>) -> Seq<Move> {
    candidates_upto(last, 18)
}

proof fn lemma_candidates_upto(last: Option<Axis>, n: int)
    requires
        0 <= n <= 18,
    ensures
        forall|k: int|
            0 <= k < candidates_upto(last, n).len() ==> last != Some(
                move_axis(#[trigger] candidates_upto(last, n)[k]),
            ),
    decreases n,
{
    if n > 0 {
        lemma_candidates_upto(last, n - 1);
        let prev = candidates_upto(last, n - 1);
        let m = move_at(n - 1);
        if last != Some(move_axis(m)) {
            assert forall|k: int| 0 <= k < prev.push(m).len() implies last != Some(
                move_axis(#[trigger] prev.push(m)[k]),
            ) by {
                if k < prev.len() {
                    assert(prev.push(m)[k] == prev[k]);
                }
            }
        }
    }
}

proof fn lemma_candidate_count(last: Option<Axis>)
    ensures
        last is None ==> scramble_candidates(last).len() == 18,
        last is Some ==> scramble_candidates(last).len() == 12,
{
    lemma_count_upto(last, 18);
    if last is Some {
        assert(excluded_upto(last, 18) == 6);
    } else {
        assert(excluded_upto(last, 18) == 0);
    }
}

/// How many of the first `n` moves of the canonical order turn about `last`.
spec fn excluded_upto(last: Option<Axis>, n: int) -> int {
    let below = |lo: int|
        if n <= lo {
            0
        } else if n >= lo + 6 {
            6
        } else {
            n - lo
        };
    match last {
        None => 0,
        Some(Axis::Y) => below(0),
        Some(Axis::X) => below(6),
        Some(Axis::Z) => below(12),
    }
}

proof fn lemma_count_upto(last: Option<Axis>, n: int)
    requires
        0 <= n <= 18,
    ensures
        candidates_upto(last, n).len() == n - excluded_upto(last, n),
    decreases n,
{
    if n > 0 {
        lemma_count_upto(last, n - 1);
    }
}

proof fn lemma_extend_moves(s: Seq<FaceColor>, prev: Seq<Move>, m: Move)
    requires
        no_repeated_axis(prev),
        prev.len() > 0 ==> move_axis(prev.last()) != move_axis(m),
    ensures
        no_repeated_axis(prev.push(m)),
        apply_moves(s, prev.push(m)) == apply_move_spec(apply_moves(s, prev), m),
{
    let ms = prev.push(m);
    assert(ms.drop_last() =~= prev);
    assert forall|k: int| 1 <= k < ms.len() implies #[trigger] axis_changes_at(ms, k) by {
        if k < prev.len() {
            assert(axis_changes_at(prev, k));
            assert(ms[k] == prev[k] && ms[k - 1] == prev[k - 1]);
        }
    }
}

/// Relies on rand's `Rng::gen_range`: a value drawn from `0..n`. It panics
/// on an empty range, which `requires` rules out.
#[verifier::external_body]
fn draw_below(rng: &mut rand::rngs::StdRng, n: usize) -> (r: usize)
    requires
        n > 0,
    ensures
        r < n,
{
    rand::Rng::gen_range(rng, 0..n)
}

#[verifier::external_type_specification]
#[verifier::external_body]
pub struct ExStdRng(rand::rngs::StdRng);

/// How many moves may follow a move about `last` in a scramble.
pub fn candidate_count(last: Option<Axis>) -> (r: usize)
    ensures
        r == scramble_candidates(last).len(),
        last is None ==> r == 18,
        last is Some ==> r == 12,
{
    proof {
        lemma_candidate_count(last);
    }
    match last {
        Some(_) => 12,
        None => 18,
    }
}

/// The scramble move picked by `pick` among the moves that may follow a move
/// about `last`.
pub fn scramble_choice(last: Option<Axis>, pick: usize) -> (r: Move)
    requires
        pick < scramble_candidates(last).len(),
    ensures
        r == scramble_candidates(last)[pick as int],
        last != Some(move_axis(r)),
{
    let moves = Move::all();
    let mut candidates: Vec<Move> = Vec::new();
    let mut i: usize = 0;
    while i < moves.len()
        invariant
            moves@ == all_moves(),
            0 <= i <= 18,
            candidates@ == candidates_upto(last, i as int),
        decreases 18 - i,
    {
        let m = moves[i];
        let axis = m.def().axis;
        let same = match last {
            Some(a) => a == axis,
            None => false,
        };
        if !same {
            candidates.push(m);
        }
        i = i + 1;
    }
    proof {
        lemma_candidates_upto(last, 18);
    }
    candidates[pick]
}

/// A 3x3x3 cube: one color per facelet, indexed by flat facelet index,
/// beside the facelet table, built once and only read afterwards.
#[derive(Clone, Debug)]
pub struct Cube {
    stickers: Vec<FaceColor>,
    table: Vec<FaceletDescriptor>,
}

impl View for Cube {
    type V = Seq<FaceColor>;

    closed spec fn view(&self) -> Seq<FaceColor> {
        self.stickers@
    }
}

impl Cube {
    /// The cube's facelet table is the table of all 54 facelets.
    pub closed spec fn has_table(&self) -> bool {
        is_facelet_table(self.table@)
    }

    /// The cube holds one color for each of the 54 facelets, each color
    /// shows on exactly nine of them, and its facelet table is in place.
    pub open spec fn wf(&self) -> bool {
        &&& self@.len() == 54
        &&& forall|c: FaceColor| #[trigger] color_count(self@, c) == 9
        &&& self.has_table()
    }

    /// A solved cube.
    pub fn new() -> (r: Self)
        ensures
            r@ == solved_state(),
            is_solved_state(r@),
            r.wf(),
    {
        proof {
            assert forall|c: FaceColor| #[trigger] color_count(solved_state(), c) == 9 by {
                lemma_solved_state(c);
            }
            lemma_solved_state(FaceColor::White);
        }
        let table = facelet_descriptors();
        let mut stickers: Vec<FaceColor> = Vec::with_capacity(FACELET_COUNT);
        let mut i: usize = 0;
        while i < FACELET_COUNT
            invariant
                is_facelet_table(table@),
                0 <= i <= 54,
                stickers@ =~= solved_state().take(i as int),
            decreases 54 - i,
        {
            stickers.push(table[i].face.default_color());
            i = i + 1;
        }
        Self { stickers, table }
    }

    /// Restores the solved coloring.
    pub fn reset(&mut self)
        requires
            old(self).wf(),
        ensures
            final(self)@ == solved_state(),
            final(self).wf(),
    {
        let mut i: usize = 0;
        while i < FACELET_COUNT
            invariant
                is_facelet_table(self.table@),
                0 <= i <= 54,
                self.stickers@.len() == 54,
                forall|j: int| 0 <= j < i ==> #[trigger] self.stickers@[j] == solved_state()[j],
            decreases 54 - i,
        {
            let face = self.table[i].face;
            self.stickers.set(i, face.default_color());
            i = i + 1;
        }
        assert(self.stickers@ =~= solved_state());
        assert forall|c: FaceColor| #[trigger] color_count(self@, c) == 9 by {
            lemma_solved_state(c);
        }
    }

    /// Whether every face's nine stickers show that face's canonical color.
    pub fn is_solved(&self) -> (r: bool)
        requires
            self.wf(),
        ensures
            r == is_solved_state(self@),
    {
        proof {
            lemma_facelet_bijection();
        }
        let table = &self.table;
        let mut i: usize = 0;
        while i < FACELET_COUNT
            invariant
                is_facelet_table(table@),
                self.stickers@.len() == 54,
                0 <= i <= 54,
                forall|j: int|
                    0 <= j < i ==> #[trigger] self.stickers@[j] == canonical_color(facelet_face(j)),
            decreases 54 - i,
        {
            let desc = table[i];
            assert(is_facelet(desc.coord, desc.face));
            let idx = facelet_index(desc.coord, desc.face);
            if self.stickers[idx] != desc.face.default_color() {
                return false;
            }
            i = i + 1;
        }
        true
    }

    /// Performs `mv`: its quarter turn, once or twice.
    pub fn apply_move(&mut self, mv: Move)
        requires
            old(self).wf(),
        ensures
            final(self)@ == apply_move_spec(old(self)@, mv),
            final(self).wf(),
    {
        let def = mv.def();
        let ghost s = self@;
        self.rotate_layer(def.axis, def.layer, def.dir);
        proof {
            reveal(rotate_layer_spec);
        }
        if def.turns == 2 {
            self.rotate_layer(def.axis, def.layer, def.dir);
        }
        proof {
            reveal(apply_move_spec);
            assert forall|c: FaceColor| #[trigger] color_count(self@, c) == 9 by {
                lemma_move_keeps_counts(s, mv, c);
            }
        }
    }

    /// Makes `len` moves drawn by `rng`, each uniformly among the moves whose
    /// axis differs from the previous move's axis.
    pub fn scramble(&mut self, len: usize, rng: &mut rand::rngs::StdRng)
        requires
            old(self).wf(),
        ensures
            final(self).wf(),
            exists|ms: Seq<Move>|
                ms.len() == len && no_repeated_axis(ms) && final(self)@ == apply_moves(
                    old(self)@,
                    ms,
                ),
    {
        let ghost s = self@;
        let ghost mut ms: Seq<Move> = seq![];
        let mut last: Option<Axis> = None;
        let mut i: usize = 0;
        while i < len
            invariant
                self.wf(),
                0 <= i <= len,
                ms.len() == i,
                no_repeated_axis(ms),
                self@ == apply_moves(s, ms),
                i == 0 ==> last is None,
                i > 0 ==> last == Some(move_axis(ms.last())),
            decreases len - i,
        {
            let pick = draw_below(rng, candidate_count(last));
            let choice = scramble_choice(last, pick);
            last = Some(choice.def().axis);
            self.apply_move(choice);
            proof {
                lemma_extend_moves(s, ms, choice);
                ms = ms.push(choice);
            }
            i = i + 1;
        }
    }

    /// The 54 colors, indexed by flat facelet index.
    pub fn face_colors(&self) -> (r: &[FaceColor])
        ensures
            r@ == self@,
    {
        self.stickers.as_slice()
    }

    fn rotate_layer(&mut self, axis: Axis, layer: i8, dir: RotationDir)
        requires
            old(self)@.len() == 54,
            old(self).has_table(),
        ensures
            final(self)@ == rotate_layer_spec(old(self)@, axis, layer as int, dir),
            final(self)@.len() == 54,
            final(self).has_table(),
    {
        rotate_layer(&mut self.stickers, &self.table, axis, layer, dir);
        proof {
            reveal(rotate_layer_spec);
        }
    }
}

} // verus!
