//! Vertices and the vertex buffer.
use vstd::prelude::*;

use crate::math::Vec3f;

verus! {

/// One mesh vertex: a position, an optional normal and an optional
/// fixed-point surface coordinate pair.
#[derive(Clone, Copy, Debug)]
pub struct Vertex {
    pub position: Vec3f,
    pub normal: Option<Vec3f>,
    pub texcoord: Option<(i64, i64)>,
}

impl Vertex {
    /// Builds a vertex from its parts.
    pub fn new(position: Vec3f, normal: Option<Vec3f>, texcoord: Option<(i64, i64)>) -> (v: Self)
        ensures
            v == (Vertex { position, normal, texcoord }),
    {
        Vertex { position, normal, texcoord }
    }
}

/// An ordered vertex buffer.
pub struct VertexArray {
    vertices: Vec<Vertex>,
}

impl View for VertexArray {
    type V = Seq<Vertex>;

    closed spec fn view(&self) -> Seq<Vertex> {
        self.vertices@
    }
}

impl VertexArray {
    /// Creates an empty buffer with room for `capacity` vertices before a
    /// reallocation is needed.
    pub fn new(capacity: usize) -> (va: Self)
        ensures
            va@ == Seq::<Vertex>::empty(),
    {
        VertexArray { vertices: Vec::with_capacity(capacity) }
    }

    /// Appends a vertex at the end.
    pub fn push(&mut self, vertex: Vertex)
        ensures
            final(self)@ == old(self)@.push(vertex),
    {
        self.vertices.push(vertex);
    }

    /// The number of vertices in the buffer.
    pub fn len(&self) -> (n: usize)
        ensures
            n == self@.len(),
    {
        self.vertices.len()
    }

    /// The vertex at `index`.
    pub fn get(&self, index: usize) -> (v: &Vertex)
        requires
            index < self@.len(),
        ensures
            *v == self@[index as int],
    {
        &self.vertices[index]
    }

    /// The vertices as a shared slice.
    pub fn vertices(&self) -> (vs: &Vec<Vertex>)
        ensures
            vs@ == self@,
    {
        &self.vertices
    }

    /// Replaces the vertex at `index`.
    pub fn set(&mut self, index: usize, vertex: Vertex)
        requires
            index < old(self)@.len(),
        ensures
            final(self)@ == old(self)@.update(index as int, vertex),
    {
        self.vertices[index] = vertex;
    }
}

} // verus!
