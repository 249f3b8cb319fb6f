//! Buffer, texture and damage state of one client surface.

use vstd::prelude::*;

use crate::damage::{rotated, Damage, MAX_DAMAGE_AGE};
use crate::geometry::{Rect, Size};

verus! {

/// Rotation and flip of a buffer's content.
#[derive(Clone, Copy, Debug, PartialEq, Eq, Structural)]
pub enum Transform {
    Normal,
    Rotate90,
    Rotate180,
    Rotate270,
    Flipped,
    Flipped90,
    Flipped180,
    Flipped270,
}

/// A change of the buffer attached to a surface.
pub enum BufferChange<B> {
    /// A new buffer, with its size in logical pixels, its transform and its scale.
    NewBuffer { buffer: B, size: Size, transform: Transform, scale: i32 },
    /// The buffer was detached.
    Removed,
}

/// What to do with a surface while a window's buffers are imported.
#[derive(Clone, Copy, Debug, PartialEq, Eq, Structural)]
pub enum ImportStep {
    /// Draw the cached texture, then go on with the sub-surfaces.
    Reuse,
    /// Import the attached buffer, then go on with the sub-surfaces where that succeeds.
    Import,
    /// Nothing to draw: skip the surface and its sub-surfaces.
    Skip,
}

/// What is known of a surface's buffer state.
pub struct SurfaceModel<B, T> {
    pub texture: Option<T>,
    pub buffer: Option<B>,
    pub size: Size,
    pub transform: Transform,
    pub scale: i32,
    pub physical: Seq<Rect>,
    pub buffer_damage: Seq<Rect>,
}

/// Surface buffer cache: the attached buffer, the texture imported from it, and the damage
/// since the last imports.
#[verifier::reject_recursive_types(B)]
#[verifier::reject_recursive_types(T)]
pub struct SurfaceBuffer<B, T> {
    texture: Option<T>,
    buffer: Option<B>,
    size: Size,
    transform: Transform,
    scale: i32,
    damage: Damage,
}

impl<B, T> View for SurfaceBuffer<B, T> {
    type V = SurfaceModel<B, T>;

    closed spec fn view(&self) -> SurfaceModel<B, T> {
        SurfaceModel {
            texture: self.texture,
            buffer: self.buffer,
            size: self.size,
            transform: self.transform,
            scale: self.scale,
            physical: self.damage.physical_view(),
            buffer_damage: self.damage.buffer_view(),
        }
    }
}

impl<B, T> SurfaceBuffer<B, T> {
    /// The damage history is well formed.
    pub closed spec fn wf(&self) -> bool {
        self.damage.wf()
    }

    /// A surface without buffer, texture or damage.
    pub open spec fn is_empty_model(m: SurfaceModel<B, T>) -> bool {
        &&& m.texture is None
        &&& m.buffer is None
        &&& m.size == Size { w: 0, h: 0 }
        &&& m.transform == Transform::Normal
        &&& m.scale == 1
        &&& m.physical == seq![Rect::zero(), Rect::zero()]
        &&& m.buffer_damage == Seq::<Rect>::empty()
    }

    /// A surface without buffer, texture or damage.
    pub fn new() -> (r: SurfaceBuffer<B, T>)
        ensures
            r.wf(),
            SurfaceBuffer::<B, T>::is_empty_model(r@),
    {
        SurfaceBuffer {
            texture: None,
            buffer: None,
            size: Size { w: 0, h: 0 },
            transform: Transform::Normal,
            scale: 1,
            damage: Damage::new(),
        }
    }

    /// Handle buffer creation or removal. A new buffer replaces the old one and invalidates the
    /// cached texture; removal resets the whole surface state.
    pub fn update_buffer(&mut self, change: BufferChange<B>)
        requires
            old(self).wf(),
        ensures
            final(self).wf(),
            match change {
                BufferChange::NewBuffer { buffer, size, transform, scale } => final(self)@ == SurfaceModel {
                    texture: None,
                    buffer: Some(buffer),
                    size,
                    transform,
                    scale,
                    ..old(self)@
                },
                BufferChange::Removed => SurfaceBuffer::<B, T>::is_empty_model(final(self)@),
            },
    {
        match change {
            BufferChange::NewBuffer { buffer, size, transform, scale } => {
                self.size = size;
                self.transform = transform;
                self.scale = scale;
                self.buffer = Some(buffer);
                self.texture = None;
            },
            BufferChange::Removed => {
                *self = SurfaceBuffer::new();
            },
        }
    }

    /// Add new surface damage, given both in buffer coordinates and in output pixels.
    pub fn add_damage(&mut self, buffer: Rect, physical: Rect)
        requires
            old(self).wf(),
            buffer.valid(),
            physical.valid(),
        ensures
            final(self).wf(),
            final(self)@ == (SurfaceModel {
                buffer_damage: old(self)@.buffer_damage.push(buffer),
                physical: old(self)@.physical.update(0, old(self)@.physical[0].union(physical)),
                ..old(self)@
            }),
    {
        self.damage.add(buffer, physical);
    }

    /// Cache the texture imported from the buffer, closing the damage of this import once.
    /// A shared-memory buffer is released right after its import.
    pub fn imported(&mut self, texture: T, release_buffer: bool)
        requires
            old(self).wf(),
        ensures
            final(self).wf(),
            final(self)@ == (SurfaceModel {
                texture: Some(texture),
                buffer: if release_buffer {
                    None
                } else {
                    old(self)@.buffer
                },
                physical: rotated(old(self)@.physical),
                buffer_damage: Seq::<Rect>::empty(),
                ..old(self)@
            }),
    {
        self.texture = Some(texture);
        self.damage.clear();
        if release_buffer {
            self.buffer = None;
        }
    }

    /// What to do with the surface during an import: reuse a cached texture, else import an
    /// attached buffer, else skip it with its sub-surfaces.
    pub fn import_step(&self) -> (r: ImportStep)
        ensures
            r == if self@.texture is Some {
                ImportStep::Reuse
            } else if self@.buffer is Some {
                ImportStep::Import
            } else {
                ImportStep::Skip
            },
    {
        if self.texture.is_some() {
            ImportStep::Reuse
        } else if self.buffer.is_some() {
            ImportStep::Import
        } else {
            ImportStep::Skip
        }
    }

    /// The renderer could not import the buffer: drop it, keeping the rest.
    pub fn import_failed(&mut self)
        requires
            old(self).wf(),
        ensures
            final(self).wf(),
            final(self)@ == (SurfaceModel { buffer: None, ..old(self)@ }),
    {
        self.buffer = None;
    }

    /// The cached texture.
    pub fn texture(&self) -> (r: Option<&T>)
        ensures
            r == match self@.texture {
                Some(t) => Some(&t),
                None => None::<&T>,
            },
    {
        self.texture.as_ref()
    }

    /// The attached buffer, until it is imported and released.
    pub fn buffer(&self) -> (r: Option<&B>)
        ensures
            r == match self@.buffer {
                Some(b) => Some(&b),
                None => None::<&B>,
            },
    {
        self.buffer.as_ref()
    }

    /// Size of the surface in logical pixels.
    pub fn size(&self) -> (r: Size)
        ensures
            r == self@.size,
    {
        self.size
    }

    /// Transform of the buffer's content.
    pub fn transform(&self) -> (r: Transform)
        ensures
            r == self@.transform,
    {
        self.transform
    }

    /// Scale of the buffer.
    pub fn scale(&self) -> (r: i32)
        ensures
            r == self@.scale,
    {
        self.scale
    }

    /// Damage of the surface.
    pub fn damage(&self) -> (r: &Damage)
        ensures
            r.physical_view() == self@.physical,
            r.buffer_view() == self@.buffer_damage,
            self.wf() ==> r.wf() && r.physical_view().len() == MAX_DAMAGE_AGE,
    {
        &self.damage
    }
}

} // verus!
