//! Triangles and their per-vertex attributes.
//!
//! A `Vertex` carries the model-space position, the world-space position
//! used for lighting, the screen-space position after the perspective
//! divide, a color, texture coordinates, a normal, and the reciprocal
//! homogeneous weight `rhw`.  A `Triangle` is exactly three vertices and
//! a render-mode tag.

use vstd::prelude::*;
use crate::fixed::{Fx, FX_ONE, fx_div_bits};
use crate::vector::{Vector, interp_bits};

verus! {

/// How a triangle's fragments are colored.
#[derive(Clone, Copy, Debug, PartialEq, Eq, Structural)]
pub enum RenderType {
    COLOR,
    TEXTURE,
}

#[derive(Debug)]
pub struct Vertex {
    /// Model-space position, before any transform.
    pub origin_v: Vector,
    /// World/view-space position handed to the lighting stage.
    pub tv: Vector,
    /// Screen-space position after the perspective divide.
    pub v: Vector,
    pub color: Vector,
    pub tex_coords: Vector,
    pub normal: Vector,
    /// Reciprocal of the homogeneous weight before the divide.
    pub rhw: Fx,
}

#[derive(Debug)]
pub struct Triangle {
    pub vertexs: Vec<Vertex>,
    pub render: RenderType,
}

impl Vertex {
    /// Every attribute vector has its fixed dimension.
    pub open spec fn wf(self) -> bool {
        &&& self.origin_v.v@.len() == 4
        &&& self.tv.v@.len() == 4
        &&& self.v.v@.len() == 4
        &&& self.color.v@.len() == 3
        &&& self.tex_coords.v@.len() == 2
        &&& self.normal.v@.len() == 3
    }

    /// One flat index over all 21 scalar attributes of a vertex:
    /// screen position, color, texture coordinates, world position,
    /// normal, `rhw`, model-space position.
    pub open spec fn field(self, fi: int) -> int {
        if fi < 4 {
            self.v.v@[fi].bits as int
        } else if fi < 7 {
            self.color.v@[fi - 4].bits as int
        } else if fi < 9 {
            self.tex_coords.v@[fi - 7].bits as int
        } else if fi < 13 {
            self.tv.v@[fi - 9].bits as int
        } else if fi < 16 {
            self.normal.v@[fi - 13].bits as int
        } else if fi < 17 {
            self.rhw.bits as int
        } else {
            self.origin_v.v@[fi - 17].bits as int
        }
    }

    /// All components zero, except `rhw`, which starts at one.
    pub open spec fn is_initial(self) -> bool {
        &&& self.wf()
        &&& forall|j: int| 0 <= j < 4 ==> self.origin_v.v@[j].bits == 0
        &&& forall|j: int| 0 <= j < 4 ==> self.tv.v@[j].bits == 0
        &&& forall|j: int| 0 <= j < 4 ==> self.v.v@[j].bits == 0
        &&& forall|j: int| 0 <= j < 3 ==> self.color.v@[j].bits == 0
        &&& forall|j: int| 0 <= j < 2 ==> self.tex_coords.v@[j].bits == 0
        &&& forall|j: int| 0 <= j < 3 ==> self.normal.v@[j].bits == 0
        &&& self.rhw.bits == FX_ONE
    }
}

impl Default for Vertex {
    fn default() -> (r: Vertex)
        ensures
            r.is_initial(),
    {
        Vertex {
            origin_v: Vector::new(4),
            tv: Vector::new(4),
            v: Vector::new(4),
            color: Vector::new(3),
            tex_coords: Vector::new(2),
            normal: Vector::new(3),
            rhw: Fx::one(),
        }
    }
}

/// Linear interpolation of every attribute of two vertices.
pub fn vertex_interp(v1: &Vertex, v2: &Vertex, t: Fx) -> (r: Vertex)
    requires
        v1.wf(),
        v2.wf(),
    ensures
        r.wf(),
        forall|j: int| 0 <= j < 4
            ==> r.origin_v.v@[j].bits == interp_bits(v1.origin_v.v@[j].bits as int, v2.origin_v.v@[j].bits as int, t.bits as int),
        forall|j: int| 0 <= j < 4
            ==> r.tv.v@[j].bits == interp_bits(v1.tv.v@[j].bits as int, v2.tv.v@[j].bits as int, t.bits as int),
        forall|j: int| 0 <= j < 4
            ==> r.v.v@[j].bits == interp_bits(v1.v.v@[j].bits as int, v2.v.v@[j].bits as int, t.bits as int),
        forall|j: int| 0 <= j < 3
            ==> r.color.v@[j].bits == interp_bits(v1.color.v@[j].bits as int, v2.color.v@[j].bits as int, t.bits as int),
        forall|j: int| 0 <= j < 2
            ==> r.tex_coords.v@[j].bits == interp_bits(v1.tex_coords.v@[j].bits as int, v2.tex_coords.v@[j].bits as int, t.bits as int),
        forall|j: int| 0 <= j < 3
            ==> r.normal.v@[j].bits == interp_bits(v1.normal.v@[j].bits as int, v2.normal.v@[j].bits as int, t.bits as int),
        r.rhw.bits == interp_bits(v1.rhw.bits as int, v2.rhw.bits as int, t.bits as int),
{
    Vertex {
        origin_v: crate::vector::vector4f_interpolation(&v1.origin_v, &v2.origin_v, t),
        v: crate::vector::vector4f_interpolation(&v1.v, &v2.v, t),
        color: Vector::new_3(
            crate::utils::interpolation(v1.color.r(), v2.color.r(), t),
            crate::utils::interpolation(v1.color.g(), v2.color.g(), t),
            crate::utils::interpolation(v1.color.b(), v2.color.b(), t),
        ),
        tv: crate::vector::vector4f_interpolation(&v1.tv, &v2.tv, t),
        tex_coords: Vector::new_2(
            crate::utils::interpolation(v1.tex_coords.u(), v2.tex_coords.u(), t),
            crate::utils::interpolation(v1.tex_coords.v(), v2.tex_coords.v(), t),
        ),
        normal: Vector::new_3(
            crate::utils::interpolation(v1.normal.x(), v2.normal.x(), t),
            crate::utils::interpolation(v1.normal.y(), v2.normal.y(), t),
            crate::utils::interpolation(v1.normal.z(), v2.normal.z(), t),
        ),
        rhw: crate::utils::interpolation(v1.rhw, v2.rhw, t),
    }
}

impl Triangle {
    /// Exactly three well-formed vertices.
    pub open spec fn wf(self) -> bool {
        self.vertexs@.len() == 3 && forall|i: int| 0 <= i < 3 ==> (#[trigger] self.vertexs@[i]).wf()
    }

    /// A flat-color triangle of three initial vertices.
    pub fn new() -> (r: Triangle)
        ensures
            r.wf(),
            r.render == RenderType::COLOR,
            forall|i: int| 0 <= i < 3 ==> (#[trigger] r.vertexs@[i]).is_initial(),
    {
        let mut vertexs: Vec<Vertex> = Vec::new();
        vertexs.push(Vertex::default());
        vertexs.push(Vertex::default());
        vertexs.push(Vertex::default());
        Triangle { vertexs, render: RenderType::COLOR }
    }

    pub fn set_render_type(&mut self, t: RenderType)
        ensures
            final(self).render == t,
            final(self).vertexs == old(self).vertexs,
    {
        self.render = t;
    }

    /// Set the three model-space positions.
    pub fn set_origin_vertexs(&mut self, v: Vec<Vector>)
        requires
            old(self).wf(),
            v@.len() == 3,
            forall|i: int| 0 <= i < 3 ==> (#[trigger] v@[i]).v@.len() == 4,
        ensures
            final(self).wf(),
            final(self).render == old(self).render,
            forall|i: int| 0 <= i < 3 ==> (#[trigger] final(self).vertexs@[i]).origin_v == v@[i],
            forall|i: int| 0 <= i < 3 ==> (#[trigger] final(self).vertexs@[i]).tv == old(self).vertexs@[i].tv,
            forall|i: int| 0 <= i < 3 ==> (#[trigger] final(self).vertexs@[i]).v == old(self).vertexs@[i].v,
            forall|i: int| 0 <= i < 3 ==> (#[trigger] final(self).vertexs@[i]).color == old(self).vertexs@[i].color,
            forall|i: int| 0 <= i < 3 ==> (#[trigger] final(self).vertexs@[i]).tex_coords == old(self).vertexs@[i].tex_coords,
            forall|i: int| 0 <= i < 3 ==> (#[trigger] final(self).vertexs@[i]).normal == old(self).vertexs@[i].normal,
            forall|i: int| 0 <= i < 3 ==> (#[trigger] final(self).vertexs@[i]).rhw == old(self).vertexs@[i].rhw,
    {
        let mut vin = v;
        let mut i: usize = 0;
        while i < 3
            invariant
                i <= 3,
                old(self).wf(),
                self.vertexs@.len() == 3,
                self.render == old(self).render,
                vin@.len() == 3 - i,
                forall|k: int| 0 <= k < 3 - i ==> vin@[k] == v@[k + i],
                forall|k: int| 0 <= k < 3 ==> (#[trigger] v@[k]).v@.len() == 4,
                forall|k: int| i <= k < 3 ==> self.vertexs@[k] == old(self).vertexs@[k],
                forall|k: int| 0 <= k < i ==> (#[trigger] self.vertexs@[k]).origin_v == v@[k],
                forall|k: int| 0 <= k < i ==> (#[trigger] self.vertexs@[k]).tv == old(self).vertexs@[k].tv,
                forall|k: int| 0 <= k < i ==> (#[trigger] self.vertexs@[k]).v == old(self).vertexs@[k].v,
                forall|k: int| 0 <= k < i ==> (#[trigger] self.vertexs@[k]).color == old(self).vertexs@[k].color,
                forall|k: int| 0 <= k < i ==> (#[trigger] self.vertexs@[k]).tex_coords == old(self).vertexs@[k].tex_coords,
                forall|k: int| 0 <= k < i ==> (#[trigger] self.vertexs@[k]).normal == old(self).vertexs@[k].normal,
                forall|k: int| 0 <= k < i ==> (#[trigger] self.vertexs@[k]).rhw == old(self).vertexs@[k].rhw,
                forall|k: int| 0 <= k < i ==> (#[trigger] self.vertexs@[k]).wf(),
            decreases 3 - i,
        {
            let nv = vin.remove(0);
            let mut vert = self.vertexs.remove(i);
            vert.origin_v = nv;
            self.vertexs.insert(i, vert);
            i = i + 1;
        }
    }

    /// Set the three world-space positions used for lighting.
    pub fn set_tvetexs(&mut self, v: Vec<Vector>)
        requires
            old(self).wf(),
            v@.len() == 3,
            forall|i: int| 0 <= i < 3 ==> (#[trigger] v@[i]).v@.len() == 4,
        ensures
            final(self).wf(),
            final(self).render == old(self).render,
            forall|i: int| 0 <= i < 3 ==> (#[trigger] final(self).vertexs@[i]).tv == v@[i],
            forall|i: int| 0 <= i < 3 ==> (#[trigger] final(self).vertexs@[i]).origin_v == old(self).vertexs@[i].origin_v,
            forall|i: int| 0 <= i < 3 ==> (#[trigger] final(self).vertexs@[i]).v == old(self).vertexs@[i].v,
            forall|i: int| 0 <= i < 3 ==> (#[trigger] final(self).vertexs@[i]).color == old(self).vertexs@[i].color,
            forall|i: int| 0 <= i < 3 ==> (#[trigger] final(self).vertexs@[i]).tex_coords == old(self).vertexs@[i].tex_coords,
            forall|i: int| 0 <= i < 3 ==> (#[trigger] final(self).vertexs@[i]).normal == old(self).vertexs@[i].normal,
            forall|i: int| 0 <= i < 3 ==> (#[trigger] final(self).vertexs@[i]).rhw == old(self).vertexs@[i].rhw,
    {
        let mut vin = v;
        let mut i: usize = 0;
        while i < 3
            invariant
                i <= 3,
                old(self).wf(),
                self.vertexs@.len() == 3,
                self.render == old(self).render,
                vin@.len() == 3 - i,
                forall|k: int| 0 <= k < 3 - i ==> vin@[k] == v@[k + i],
                forall|k: int| 0 <= k < 3 ==> (#[trigger] v@[k]).v@.len() == 4,
                forall|k: int| i <= k < 3 ==> self.vertexs@[k] == old(self).vertexs@[k],
                forall|k: int| 0 <= k < i ==> (#[trigger] self.vertexs@[k]).tv == v@[k],
                forall|k: int| 0 <= k < i ==> (#[trigger] self.vertexs@[k]).origin_v == old(self).vertexs@[k].origin_v,
                forall|k: int| 0 <= k < i ==> (#[trigger] self.vertexs@[k]).v == old(self).vertexs@[k].v,
                forall|k: int| 0 <= k < i ==> (#[trigger] self.vertexs@[k]).color == old(self).vertexs@[k].color,
                forall|k: int| 0 <= k < i ==> (#[trigger] self.vertexs@[k]).tex_coords == old(self).vertexs@[k].tex_coords,
                forall|k: int| 0 <= k < i ==> (#[trigger] self.vertexs@[k]).normal == old(self).vertexs@[k].normal,
                forall|k: int| 0 <= k < i ==> (#[trigger] self.vertexs@[k]).rhw == old(self).vertexs@[k].rhw,
                forall|k: int| 0 <= k < i ==> (#[trigger] self.vertexs@[k]).wf(),
            decreases 3 - i,
        {
            let nv = vin.remove(0);
            let mut vert = self.vertexs.remove(i);
            vert.tv = nv;
            self.vertexs.insert(i, vert);
            i = i + 1;
        }
    }

    /// Assign the screen-space positions: record `rhw = 1/w`, divide by
    /// `w`, and store the result.
    pub fn set_vertexs(&mut self, v: Vec<Vector>)
        requires
            old(self).wf(),
            v@.len() == 3,
            forall|i: int| 0 <= i < 3 ==> (#[trigger] v@[i]).v@.len() == 4,
        ensures
            final(self).wf(),
            final(self).render == old(self).render,
            forall|i: int| 0 <= i < 3
                ==> (#[trigger] final(self).vertexs@[i]).rhw.bits
                    == fx_div_bits(FX_ONE as int, v@[i].v@[3].bits as int),
            forall|i: int| 0 <= i < 3 ==> (#[trigger] final(self).vertexs@[i]).v.v@.len() == 4,
            forall|i: int, j: int| 0 <= i < 3 && 0 <= j < 3
                ==> (#[trigger] final(self).vertexs@[i].v.v@[j]).bits
                    == fx_div_bits(v@[i].v@[j].bits as int, v@[i].v@[3].bits as int),
            forall|i: int| 0 <= i < 3 ==> (#[trigger] final(self).vertexs@[i]).v.v@[3].bits == FX_ONE,
            forall|i: int| 0 <= i < 3 ==> (#[trigger] final(self).vertexs@[i]).origin_v == old(self).vertexs@[i].origin_v,
            forall|i: int| 0 <= i < 3 ==> (#[trigger] final(self).vertexs@[i]).tv == old(self).vertexs@[i].tv,
            forall|i: int| 0 <= i < 3 ==> (#[trigger] final(self).vertexs@[i]).color == old(self).vertexs@[i].color,
            forall|i: int| 0 <= i < 3 ==> (#[trigger] final(self).vertexs@[i]).tex_coords == old(self).vertexs@[i].tex_coords,
            forall|i: int| 0 <= i < 3 ==> (#[trigger] final(self).vertexs@[i]).normal == old(self).vertexs@[i].normal,
    {
        let mut vin = v;
        let mut i: usize = 0;
        while i < 3
            invariant
                i <= 3,
                old(self).wf(),
                self.vertexs@.len() == 3,
                self.render == old(self).render,
                vin@.len() == 3 - i,
                forall|k: int| 0 <= k < 3 - i ==> vin@[k] == v@[k + i],
                forall|k: int| 0 <= k < 3 ==> (#[trigger] v@[k]).v@.len() == 4,
                forall|k: int| i <= k < 3 ==> self.vertexs@[k] == old(self).vertexs@[k],
                forall|k: int| 0 <= k < i
                    ==> (#[trigger] self.vertexs@[k]).rhw.bits == fx_div_bits(FX_ONE as int, v@[k].v@[3].bits as int),
                forall|k: int| 0 <= k < i ==> (#[trigger] self.vertexs@[k]).v.v@.len() == 4,
                forall|k: int, j: int| 0 <= k < i && 0 <= j < 3
                    ==> (#[trigger] self.vertexs@[k].v.v@[j]).bits
                        == fx_div_bits(v@[k].v@[j].bits as int, v@[k].v@[3].bits as int),
                forall|k: int| 0 <= k < i ==> (#[trigger] self.vertexs@[k]).v.v@[3].bits == FX_ONE,
                forall|k: int| 0 <= k < i ==> (#[trigger] self.vertexs@[k]).origin_v == old(self).vertexs@[k].origin_v,
                forall|k: int| 0 <= k < i ==> (#[trigger] self.vertexs@[k]).tv == old(self).vertexs@[k].tv,
                forall|k: int| 0 <= k < i ==> (#[trigger] self.vertexs@[k]).color == old(self).vertexs@[k].color,
                forall|k: int| 0 <= k < i ==> (#[trigger] self.vertexs@[k]).tex_coords == old(self).vertexs@[k].tex_coords,
                forall|k: int| 0 <= k < i ==> (#[trigger] self.vertexs@[k]).normal == old(self).vertexs@[k].normal,
                forall|k: int| 0 <= k < i ==> (#[trigger] self.vertexs@[k]).wf(),
            decreases 3 - i,
        {
            let mut nv = vin.remove(0);
            let mut vert = self.vertexs.remove(i);
            vert.rhw = Fx::one().div(nv.w());
            nv.divide_w();
            vert.v = nv;
            self.vertexs.insert(i, vert);
            i = i + 1;
        }
    }

    /// Set the three vertex colors.
    pub fn set_colors(&mut self, c: Vec<Vector>)
        requires
            old(self).wf(),
            c@.len() == 3,
            forall|i: int| 0 <= i < 3 ==> (#[trigger] c@[i]).v@.len() == 3,
        ensures
            final(self).wf(),
            final(self).render == old(self).render,
            forall|i: int| 0 <= i < 3 ==> (#[trigger] final(self).vertexs@[i]).color == c@[i],
            forall|i: int| 0 <= i < 3 ==> (#[trigger] final(self).vertexs@[i]).origin_v == old(self).vertexs@[i].origin_v,
            forall|i: int| 0 <= i < 3 ==> (#[trigger] final(self).vertexs@[i]).tv == old(self).vertexs@[i].tv,
            forall|i: int| 0 <= i < 3 ==> (#[trigger] final(self).vertexs@[i]).v == old(self).vertexs@[i].v,
            forall|i: int| 0 <= i < 3 ==> (#[trigger] final(self).vertexs@[i]).tex_coords == old(self).vertexs@[i].tex_coords,
            forall|i: int| 0 <= i < 3 ==> (#[trigger] final(self).vertexs@[i]).normal == old(self).vertexs@[i].normal,
            forall|i: int| 0 <= i < 3 ==> (#[trigger] final(self).vertexs@[i]).rhw == old(self).vertexs@[i].rhw,
    {
        let mut vin = c;
        let mut i: usize = 0;
        while i < 3
            invariant
                i <= 3,
                old(self).wf(),
                self.vertexs@.len() == 3,
                self.render == old(self).render,
                vin@.len() == 3 - i,
                forall|k: int| 0 <= k < 3 - i ==> vin@[k] == c@[k + i],
                forall|k: int| 0 <= k < 3 ==> (#[trigger] c@[k]).v@.len() == 3,
                forall|k: int| i <= k < 3 ==> self.vertexs@[k] == old(self).vertexs@[k],
                forall|k: int| 0 <= k < i ==> (#[trigger] self.vertexs@[k]).color == c@[k],
                forall|k: int| 0 <= k < i ==> (#[trigger] self.vertexs@[k]).origin_v == old(self).vertexs@[k].origin_v,
                forall|k: int| 0 <= k < i ==> (#[trigger] self.vertexs@[k]).tv == old(self).vertexs@[k].tv,
                forall|k: int| 0 <= k < i ==> (#[trigger] self.vertexs@[k]).v == old(self).vertexs@[k].v,
                forall|k: int| 0 <= k < i ==> (#[trigger] self.vertexs@[k]).tex_coords == old(self).vertexs@[k].tex_coords,
                forall|k: int| 0 <= k < i ==> (#[trigger] self.vertexs@[k]).normal == old(self).vertexs@[k].normal,
                forall|k: int| 0 <= k < i ==> (#[trigger] self.vertexs@[k]).rhw == old(self).vertexs@[k].rhw,
                forall|k: int| 0 <= k < i ==> (#[trigger] self.vertexs@[k]).wf(),
            decreases 3 - i,
        {
            let nv = vin.remove(0);
            let mut vert = self.vertexs.remove(i);
            vert.color = nv;
            self.vertexs.insert(i, vert);
            i = i + 1;
        }
    }

    /// Set the three texture coordinates.
    pub fn set_tex_coords(&mut self, v: Vec<Vector>)
        requires
            old(self).wf(),
            v@.len() == 3,
            forall|i: int| 0 <= i < 3 ==> (#[trigger] v@[i]).v@.len() == 2,
        ensures
            final(self).wf(),
            final(self).render == old(self).render,
            forall|i: int| 0 <= i < 3 ==> (#[trigger] final(self).vertexs@[i]).tex_coords == v@[i],
            forall|i: int| 0 <= i < 3 ==> (#[trigger] final(self).vertexs@[i]).origin_v == old(self).vertexs@[i].origin_v,
            forall|i: int| 0 <= i < 3 ==> (#[trigger] final(self).vertexs@[i]).tv == old(self).vertexs@[i].tv,
            forall|i: int| 0 <= i < 3 ==> (#[trigger] final(self).vertexs@[i]).v == old(self).vertexs@[i].v,
            forall|i: int| 0 <= i < 3 ==> (#[trigger] final(self).vertexs@[i]).color == old(self).vertexs@[i].color,
            forall|i: int| 0 <= i < 3 ==> (#[trigger] final(self).vertexs@[i]).normal == old(self).vertexs@[i].normal,
            forall|i: int| 0 <= i < 3 ==> (#[trigger] final(self).vertexs@[i]).rhw == old(self).vertexs@[i].rhw,
    {
        let mut vin = v;
        let mut i: usize = 0;
        while i < 3
            invariant
                i <= 3,
                old(self).wf(),
                self.vertexs@.len() == 3,
                self.render == old(self).render,
                vin@.len() == 3 - i,
                forall|k: int| 0 <= k < 3 - i ==> vin@[k] == v@[k + i],
                forall|k: int| 0 <= k < 3 ==> (#[trigger] v@[k]).v@.len() == 2,
                forall|k: int| i <= k < 3 ==> self.vertexs@[k] == old(self).vertexs@[k],
                forall|k: int| 0 <= k < i ==> (#[trigger] self.vertexs@[k]).tex_coords == v@[k],
                forall|k: int| 0 <= k < i ==> (#[trigger] self.vertexs@[k]).origin_v == old(self).vertexs@[k].origin_v,
                forall|k: int| 0 <= k < i ==> (#[trigger] self.vertexs@[k]).tv == old(self).vertexs@[k].tv,
                forall|k: int| 0 <= k < i ==> (#[trigger] self.vertexs@[k]).v == old(self).vertexs@[k].v,
                forall|k: int| 0 <= k < i ==> (#[trigger] self.vertexs@[k]).color == old(self).vertexs@[k].color,
                forall|k: int| 0 <= k < i ==> (#[trigger] self.vertexs@[k]).normal == old(self).vertexs@[k].normal,
                forall|k: int| 0 <= k < i ==> (#[trigger] self.vertexs@[k]).rhw == old(self).vertexs@[k].rhw,
                forall|k: int| 0 <= k < i ==> (#[trigger] self.vertexs@[k]).wf(),
            decreases 3 - i,
        {
            let nv = vin.remove(0);
            let mut vert = self.vertexs.remove(i);
            vert.tex_coords = nv;
            self.vertexs.insert(i, vert);
            i = i + 1;
        }
    }

    /// Set the three vertex normals.
    pub fn set_normal(&mut self, c: Vec<Vector>)
        requires
            old(self).wf(),
            c@.len() == 3,
            forall|i: int| 0 <= i < 3 ==> (#[trigger] c@[i]).v@.len() == 3,
        ensures
            final(self).wf(),
            final(self).render == old(self).render,
            forall|i: int| 0 <= i < 3 ==> (#[trigger] final(self).vertexs@[i]).normal == c@[i],
            forall|i: int| 0 <= i < 3 ==> (#[trigger] final(self).vertexs@[i]).origin_v == old(self).vertexs@[i].origin_v,
            forall|i: int| 0 <= i < 3 ==> (#[trigger] final(self).vertexs@[i]).tv == old(self).vertexs@[i].tv,
            forall|i: int| 0 <= i < 3 ==> (#[trigger] final(self).vertexs@[i]).v == old(self).vertexs@[i].v,
            forall|i: int| 0 <= i < 3 ==> (#[trigger] final(self).vertexs@[i]).color == old(self).vertexs@[i].color,
            forall|i: int| 0 <= i < 3 ==> (#[trigger] final(self).vertexs@[i]).tex_coords == old(self).vertexs@[i].tex_coords,
            forall|i: int| 0 <= i < 3 ==> (#[trigger] final(self).vertexs@[i]).rhw == old(self).vertexs@[i].rhw,
    {
        let mut vin = c;
        let mut i: usize = 0;
        while i < 3
            invariant
                i <= 3,
                old(self).wf(),
                self.vertexs@.len() == 3,
                self.render == old(self).render,
                vin@.len() == 3 - i,
                forall|k: int| 0 <= k < 3 - i ==> vin@[k] == c@[k + i],
                forall|k: int| 0 <= k < 3 ==> (#[trigger] c@[k]).v@.len() == 3,
                forall|k: int| i <= k < 3 ==> self.vertexs@[k] == old(self).vertexs@[k],
                forall|k: int| 0 <= k < i ==> (#[trigger] self.vertexs@[k]).normal == c@[k],
                forall|k: int| 0 <= k < i ==> (#[trigger] self.vertexs@[k]).origin_v == old(self).vertexs@[k].origin_v,
                forall|k: int| 0 <= k < i ==> (#[trigger] self.vertexs@[k]).tv == old(self).vertexs@[k].tv,
                forall|k: int| 0 <= k < i ==> (#[trigger] self.vertexs@[k]).v == old(self).vertexs@[k].v,
                forall|k: int| 0 <= k < i ==> (#[trigger] self.vertexs@[k]).color == old(self).vertexs@[k].color,
                forall|k: int| 0 <= k < i ==> (#[trigger] self.vertexs@[k]).tex_coords == old(self).vertexs@[k].tex_coords,
                forall|k: int| 0 <= k < i ==> (#[trigger] self.vertexs@[k]).rhw == old(self).vertexs@[k].rhw,
                forall|k: int| 0 <= k < i ==> (#[trigger] self.vertexs@[k]).wf(),
            decreases 3 - i,
        {
            let nv = vin.remove(0);
            let mut vert = self.vertexs.remove(i);
            vert.normal = nv;
            self.vertexs.insert(i, vert);
            i = i + 1;
        }
    }
}

} // verus!
