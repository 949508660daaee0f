//! The scene model: transforms, the camera and its input-driven update,
//! meshes of quad faces, and objects placing a mesh in the world.
//!
//! All positions and angles are fixed-point (`1/FP_ONE` units). The camera
//! update needs the sine and cosine of the yaw to move along the view axes;
//! the front end hands those in as fixed-point values, so the step itself
//! is exact integer arithmetic.

use vstd::prelude::*;
use crate::num::{div_trunc, iabs, tdiv, FP_ONE, WORLD_LIMIT};
use crate::surface::Color;
use crate::vec::Vec3;

verus! {

/// One discrete input event, as a terminal reports it.
#[derive(Clone, Copy, Debug, PartialEq, Eq, Structural)]
pub enum Input {
    Character(char),
    KeyUp,
    KeyDown,
    KeyLeft,
    KeyRight,
    KeyResize,
}

/// A position in the world with a pitch and a yaw, in fixed-point world
/// units and fixed-point radians.
#[derive(Clone, Copy, Debug, PartialEq, Eq, Structural)]
pub struct Transform {
    pub pos: Vec3,
    pub pitch: i64,
    pub yaw: i64,
}

impl Transform {
    /// The identity placement: the origin, looking straight ahead.
    pub fn new() -> (t: Transform)
        ensures
            t.pos.x == 0 && t.pos.y == 0 && t.pos.z == 0,
            t.pitch == 0 && t.yaw == 0,
    {
        Transform { pos: Vec3 { x: 0, y: 0, z: 0 }, pitch: 0, yaw: 0 }
    }
}

/// How far one camera step moves the position along the world x axis:
/// forward and back go along the yaw-rotated forward vector, strafing goes
/// along its perpendicular.
pub open spec fn step_dx(key: Option<Input>, mx: int, mz: int) -> int {
    if key == Some(Input::Character('w')) {
        mx
    } else if key == Some(Input::Character('s')) {
        -mx
    } else if key == Some(Input::Character('a')) {
        -mz
    } else if key == Some(Input::Character('d')) {
        mz
    } else {
        0
    }
}

/// How far one camera step moves the position straight up or down.
pub open spec fn step_dy(key: Option<Input>, s: int) -> int {
    if key == Some(Input::Character('q')) {
        s
    } else if key == Some(Input::Character('e')) {
        -s
    } else {
        0
    }
}

/// How far one camera step moves the position along the world z axis.
pub open spec fn step_dz(key: Option<Input>, mx: int, mz: int) -> int {
    if key == Some(Input::Character('w')) {
        mz
    } else if key == Some(Input::Character('s')) {
        -mz
    } else if key == Some(Input::Character('a')) {
        mx
    } else if key == Some(Input::Character('d')) {
        -mx
    } else {
        0
    }
}

/// How far one camera step turns the pitch.
pub open spec fn step_dpitch(key: Option<Input>, s: int) -> int {
    if key == Some(Input::KeyUp) {
        -s
    } else if key == Some(Input::KeyDown) {
        s
    } else {
        0
    }
}

/// How far one camera step turns the yaw.
pub open spec fn step_dyaw(key: Option<Input>, s: int) -> int {
    if key == Some(Input::KeyLeft) {
        -s
    } else if key == Some(Input::KeyRight) {
        s
    } else {
        0
    }
}

/// `t1` is `t0` moved by one camera step: speed `s`, input `key`, and the
/// yaw's fixed-point sine and cosine `sy`, `cy`. Forward motion adds the
/// rotated forward vector `(s*sy, s*cy) / FP_ONE` to `(x, z)`; vertical
/// motion adds `s` to `y`; the arrow keys add `s` to pitch or yaw.
pub open spec fn camera_step(
    t0: Transform,
    t1: Transform,
    key: Option<Input>,
    s: int,
    sy: int,
    cy: int,
) -> bool {
    let mx = tdiv(s * sy, FP_ONE as int);
    let mz = tdiv(s * cy, FP_ONE as int);
    &&& t1.pos.x == t0.pos.x + step_dx(key, mx, mz)
    &&& t1.pos.y == t0.pos.y + step_dy(key, s)
    &&& t1.pos.z == t0.pos.z + step_dz(key, mx, mz)
    &&& t1.pitch == t0.pitch + step_dpitch(key, s)
    &&& t1.yaw == t0.yaw + step_dyaw(key, s)
}

/// The single viewpoint of a session.
#[derive(Clone, Copy, Debug, PartialEq, Eq, Structural)]
pub struct Camera {
    pub transform: Transform,
}

impl Camera {
    pub fn new(pos: Vec3, pitch: i64, yaw: i64) -> (c: Camera)
        ensures
            c.transform.pos == pos,
            c.transform.pitch == pitch,
            c.transform.yaw == yaw,
    {
        Camera { transform: Transform { pos, pitch, yaw } }
    }

    /// Apply one frame's input to the camera: move up/down with `q`/`e`,
    /// walk and strafe with `w a s d` along the yaw-rotated axes, and turn
    /// with the arrow keys. `s` is the fixed-point distance (or angle) of
    /// the step, and `sin_yaw`, `cos_yaw` the yaw's fixed-point sine and
    /// cosine. Any other input, or none, leaves the camera unchanged.
    pub fn update(&mut self, key: Option<Input>, s: i64, sin_yaw: i64, cos_yaw: i64)
        requires
            iabs(s as int) <= 0x10_0000,
            iabs(sin_yaw as int) <= FP_ONE as int,
            iabs(cos_yaw as int) <= FP_ONE as int,
            iabs(old(self).transform.pos.x as int) <= 0x4000_0000_0000_0000,
            iabs(old(self).transform.pos.y as int) <= 0x4000_0000_0000_0000,
            iabs(old(self).transform.pos.z as int) <= 0x4000_0000_0000_0000,
            iabs(old(self).transform.pitch as int) <= 0x4000_0000_0000_0000,
            iabs(old(self).transform.yaw as int) <= 0x4000_0000_0000_0000,
        ensures
            camera_step(
                old(self).transform,
                final(self).transform,
                key,
                s as int,
                sin_yaw as int,
                cos_yaw as int,
            ),
    {
        proof {
            assert(iabs(s as int * sin_yaw as int) <= 0x1000_0000 && iabs(
                s as int * cos_yaw as int,
            ) <= 0x1000_0000) by (nonlinear_arith)
                requires
                    iabs(s as int) <= 0x10_0000,
                    iabs(sin_yaw as int) <= FP_ONE as int,
                    iabs(cos_yaw as int) <= FP_ONE as int,
                    FP_ONE == 256,
            ;
        }
        let mx = div_trunc(s * sin_yaw, FP_ONE);
        let mz = div_trunc(s * cos_yaw, FP_ONE);
        proof {
            crate::num::lemma_tdiv_magnitude(s as int * sin_yaw as int, FP_ONE as int);
            crate::num::lemma_tdiv_magnitude(s as int * cos_yaw as int, FP_ONE as int);
        }
        if let Some(input) = key {
            match input {
                Input::Character(ch) => {
                    if ch == 'q' {
                        self.transform.pos.y = self.transform.pos.y + s;
                    } else if ch == 'e' {
                        self.transform.pos.y = self.transform.pos.y - s;
                    } else if ch == 'w' {
                        self.transform.pos.x = self.transform.pos.x + mx;
                        self.transform.pos.z = self.transform.pos.z + mz;
                    } else if ch == 's' {
                        self.transform.pos.x = self.transform.pos.x - mx;
                        self.transform.pos.z = self.transform.pos.z - mz;
                    } else if ch == 'a' {
                        self.transform.pos.x = self.transform.pos.x - mz;
                        self.transform.pos.z = self.transform.pos.z + mx;
                    } else if ch == 'd' {
                        self.transform.pos.x = self.transform.pos.x + mz;
                        self.transform.pos.z = self.transform.pos.z - mx;
                    }
                },
                Input::KeyUp => {
                    self.transform.pitch = self.transform.pitch - s;
                },
                Input::KeyDown => {
                    self.transform.pitch = self.transform.pitch + s;
                },
                Input::KeyLeft => {
                    self.transform.yaw = self.transform.yaw - s;
                },
                Input::KeyRight => {
                    self.transform.yaw = self.transform.yaw + s;
                },
                Input::KeyResize => {},
            }
        }
    }
}

/// One face of a mesh: four vertex indices and an optional display color.
#[derive(Clone, Copy, Debug, PartialEq, Eq, Structural)]
pub struct Face {
    pub a: usize,
    pub b: usize,
    pub c: usize,
    pub d: usize,
    pub color: Option<Color>,
}

/// An immutable-after-construction list of vertex positions and quad
/// faces.
pub struct Mesh {
    pub verts: Vec<Vec3>,
    pub faces: Vec<Face>,
}

/// The vertex is within the world bounds the pipeline's arithmetic
/// assumes.
pub open spec fn vert_in_bounds(v: Vec3) -> bool {
    &&& iabs(v.x as int) <= WORLD_LIMIT as int
    &&& iabs(v.y as int) <= WORLD_LIMIT as int
    &&& iabs(v.z as int) <= WORLD_LIMIT as int
}

impl Mesh {
    /// Every face index points at a vertex, and every vertex lies within
    /// the world bounds.
    pub open spec fn wf(&self) -> bool {
        &&& forall|k: int|
            0 <= k < self.faces@.len() ==> (#[trigger] self.faces@[k]).a < self.verts@.len()
                && self.faces@[k].b < self.verts@.len() && self.faces@[k].c < self.verts@.len()
                && self.faces@[k].d < self.verts@.len()
        &&& forall|k: int| 0 <= k < self.verts@.len() ==> vert_in_bounds(#[trigger] self.verts@[k])
    }

    /// The canonical unit cube: eight corners one world unit from the
    /// center along each axis, six uncolored quad faces.
    pub fn cube() -> (m: Mesh)
        ensures
            m.wf(),
            m.verts@ == cube_verts(),
            m.faces@ == cube_faces(),
    {
        let u = FP_ONE;
        let mut verts: Vec<Vec3> = Vec::new();
        verts.push(Vec3 { x: -u, y: -u, z: -u });
        verts.push(Vec3 { x: u, y: -u, z: -u });
        verts.push(Vec3 { x: u, y: u, z: -u });
        verts.push(Vec3 { x: -u, y: u, z: -u });
        verts.push(Vec3 { x: -u, y: -u, z: u });
        verts.push(Vec3 { x: u, y: -u, z: u });
        verts.push(Vec3 { x: u, y: u, z: u });
        verts.push(Vec3 { x: -u, y: u, z: u });
        let mut faces: Vec<Face> = Vec::new();
        faces.push(Face { a: 0, b: 1, c: 2, d: 3, color: None });
        faces.push(Face { a: 4, b: 5, c: 6, d: 7, color: None });
        faces.push(Face { a: 0, b: 1, c: 5, d: 4, color: None });
        faces.push(Face { a: 2, b: 3, c: 7, d: 6, color: None });
        faces.push(Face { a: 0, b: 3, c: 7, d: 4, color: None });
        faces.push(Face { a: 1, b: 2, c: 6, d: 5, color: None });
        let m = Mesh { verts, faces };
        proof {
            assert(m.verts@ =~= cube_verts());
            assert(m.faces@ =~= cube_faces());
        }
        m
    }
}

/// The eight corners of the canonical unit cube.
pub open spec fn cube_verts() -> Seq<Vec3> {
    seq![
        Vec3 { x: -256i64, y: -256i64, z: -256i64 },
        Vec3 { x: 256i64, y: -256i64, z: -256i64 },
        Vec3 { x: 256i64, y: 256i64, z: -256i64 },
        Vec3 { x: -256i64, y: 256i64, z: -256i64 },
        Vec3 { x: -256i64, y: -256i64, z: 256i64 },
        Vec3 { x: 256i64, y: -256i64, z: 256i64 },
        Vec3 { x: 256i64, y: 256i64, z: 256i64 },
        Vec3 { x: -256i64, y: 256i64, z: 256i64 },
    ]
}

/// The six quad faces of the canonical unit cube.
pub open spec fn cube_faces() -> Seq<Face> {
    seq![
        Face { a: 0, b: 1, c: 2, d: 3, color: None },
        Face { a: 4, b: 5, c: 6, d: 7, color: None },
        Face { a: 0, b: 1, c: 5, d: 4, color: None },
        Face { a: 2, b: 3, c: 7, d: 6, color: None },
        Face { a: 0, b: 3, c: 7, d: 4, color: None },
        Face { a: 1, b: 2, c: 6, d: 5, color: None },
    ]
}

/// A mesh placed in the world.
pub struct Object {
    pub transform: Transform,
    pub mesh: Mesh,
}

impl Object {
    /// Wrap a mesh at the identity placement.
    pub fn new(mesh: Mesh) -> (o: Object)
        ensures
            o.transform.pos.x == 0 && o.transform.pos.y == 0 && o.transform.pos.z == 0,
            o.transform.pitch == 0 && o.transform.yaw == 0,
            o.mesh == mesh,
    {
        Object { transform: Transform::new(), mesh }
    }
}

} // verus!
