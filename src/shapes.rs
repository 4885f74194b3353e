use vstd::prelude::*;

verus! {

/// A filled circle in pixel space.
#[derive(Debug, Clone, Copy, PartialEq, Eq)]
pub struct Circle {
    pub x: i32,
    pub y: i32,
    pub r: u32,
}

/// A drawable shape; circles are the only kind so far.
#[derive(Debug, Clone, Copy, PartialEq, Eq)]
pub enum Shape {
    Circle(Circle),
}

/// `v` clamped into the range of `i16`.
pub open spec fn saturate_i16_spec(v: int) -> int {
    if v < i16::MIN {
        i16::MIN as int
    } else if v > i16::MAX {
        i16::MAX as int
    } else {
        v
    }
}

/// Clamps a coordinate into the range of `i16`, the width that drawing
/// primitives take.
pub fn saturate_i16(v: i64) -> (r: i16)
    ensures
        r == saturate_i16_spec(v as int),
{
    if v < i16::MIN as i64 {
        i16::MIN
    } else if v > i16::MAX as i64 {
        i16::MAX
    } else {
        v as i16
    }
}

impl Circle {
    /// Centre and radius as a drawing primitive takes them, each clamped
    /// into `i16`.
    pub fn draw_params(&self) -> (r: (i16, i16, i16))
        ensures
            r.0 == saturate_i16_spec(self.x as int),
            r.1 == saturate_i16_spec(self.y as int),
            r.2 == saturate_i16_spec(self.r as int),
    {
        (saturate_i16(self.x as i64), saturate_i16(self.y as i64), saturate_i16(self.r as i64))
    }
}

/// The shapes of a scene in drawing order: later shapes are drawn on top.
///
/// Shapes are only ever appended; nothing is removed or merged.
pub struct ShapeRegistry {
    shapes: Vec<Shape>,
}

impl View for ShapeRegistry {
    type V = Seq<Shape>;

    closed spec fn view(&self) -> Seq<Shape> {
        self.shapes@
    }
}

impl ShapeRegistry {
    pub fn new() -> (r: ShapeRegistry)
        ensures
            r@ == Seq::<Shape>::empty(),
    {
        ShapeRegistry { shapes: Vec::new() }
    }

    /// Appends `shape` after every shape already held.
    pub fn push(&mut self, shape: Shape)
        ensures
            final(self)@ == old(self)@.push(shape),
    {
        self.shapes.push(shape);
    }

    pub fn len(&self) -> (r: usize)
        ensures
            r == self@.len(),
    {
        self.shapes.len()
    }

    /// The current contents in drawing order, left in place.
    pub fn snapshot(&self) -> (r: &Vec<Shape>)
        ensures
            r@ == self@,
    {
        &self.shapes
    }
}

} // verus!
