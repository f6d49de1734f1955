use vstd::prelude::*;

verus! {

/// Frames the slice takes to sweep from one end of the third axis to the other.
pub const SWEEP_FRAMES: u64 = 1000;

/// Frames of one full back-and-forth sweep.
pub const PERIOD_FRAMES: u64 = 2000;

/// Where the slice stands at the given frame, in thousandths of the third axis:
/// a triangle wave that rises from 0 to 1000 over the first `SWEEP_FRAMES` frames
/// of each period and falls back over the next.
pub open spec fn slice_offset_thousandths(frame: int) -> int {
    let distance = frame % (SWEEP_FRAMES as int);
    if frame % (PERIOD_FRAMES as int) >= SWEEP_FRAMES as int {
        SWEEP_FRAMES as int - distance
    } else {
        distance
    }
}

/// The slice offset stays within the axis, repeats every period, and moves by
/// exactly one thousandth per frame, so the sweep has no jump at its turning points.
pub proof fn lemma_slice_offset_wave(frame: int)
    requires
        frame >= 0,
    ensures
        0 <= slice_offset_thousandths(frame) <= 1000,
        slice_offset_thousandths(frame + 2000) == slice_offset_thousandths(frame),
        slice_offset_thousandths(frame + 1) == slice_offset_thousandths(frame) + 1
            || slice_offset_thousandths(frame + 1) == slice_offset_thousandths(frame) - 1,
{
    let p = frame % 2000;
    assert(frame % 1000 == p % 1000) by {
        vstd::arithmetic::div_mod::lemma_mod_mod(frame, 1000, 2);
    }
    assert((frame + 2000) % 2000 == p) by {
        vstd::arithmetic::div_mod::lemma_mod_add_multiples_vanish(frame, 2000);
    }
    assert((frame + 2000) % 1000 == frame % 1000) by {
        vstd::arithmetic::div_mod::lemma_mod_add_multiples_vanish(frame, 1000);
        vstd::arithmetic::div_mod::lemma_mod_add_multiples_vanish(frame + 1000, 1000);
    }
    let q = (frame + 1) % 2000;
    assert(q == if p == 1999 { 0 } else { p + 1 }) by {
        vstd::arithmetic::div_mod::lemma_add_mod_noop(frame, 1, 2000);
    }
    assert((frame + 1) % 1000 == q % 1000) by {
        vstd::arithmetic::div_mod::lemma_mod_mod(frame + 1, 1000, 2);
    }
}

/// Why the animation has nothing to show.
#[derive(Clone, Copy, Debug, PartialEq, Eq, Structural)]
pub enum AnimationError {
    /// No geometry has been built yet.
    UninitializedGeometry,
}

/// An animated cross-section of a 3D noise field: a frame counter that moves the
/// slice along the third axis, the field, the grid size of each slice, and the
/// geometry built from the latest slice.
pub struct PerlinAnimation<N, G> {
    noise: N,
    current_geom: Option<G>,
    current_frame: u64,
    dimensions: (u32, u32),
}

impl<N, G> PerlinAnimation<N, G> {
    pub closed spec fn spec_noise(&self) -> N {
        self.noise
    }

    pub closed spec fn spec_geometry(&self) -> Option<G> {
        self.current_geom
    }

    pub closed spec fn spec_frame(&self) -> nat {
        self.current_frame as nat
    }

    pub closed spec fn spec_dimensions(&self) -> (u32, u32) {
        self.dimensions
    }

    /// An animation at frame 0 with no geometry yet.
    pub fn new(noise: N, dimensions: (u32, u32)) -> (r: PerlinAnimation<N, G>)
        ensures
            r.spec_noise() == noise,
            r.spec_dimensions() == dimensions,
            r.spec_frame() == 0,
            r.spec_geometry() is None,
    {
        PerlinAnimation { noise, current_geom: None, current_frame: 0, dimensions }
    }

    pub fn noise(&self) -> (r: &N)
        ensures
            *r == self.spec_noise(),
    {
        &self.noise
    }

    pub fn dimensions(&self) -> (r: (u32, u32))
        ensures
            r == self.spec_dimensions(),
    {
        self.dimensions
    }

    pub fn frame(&self) -> (r: u64)
        ensures
            r == self.spec_frame(),
    {
        self.current_frame
    }

    /// The current slice offset in thousandths of the third axis.
    pub fn slice_offset(&self) -> (r: u32)
        ensures
            r == slice_offset_thousandths(self.spec_frame() as int),
    {
        let frame = self.current_frame;
        let distance: u64 = frame % SWEEP_FRAMES;
        if frame % PERIOD_FRAMES >= SWEEP_FRAMES {
            (SWEEP_FRAMES - distance) as u32
        } else {
            distance as u32
        }
    }

    /// Advances one frame and returns the new slice offset, in thousandths, at
    /// which the next geometry is to be built.
    pub fn tick(&mut self) -> (r: u32)
        requires
            old(self).spec_frame() < u64::MAX,
        ensures
            final(self).spec_frame() == old(self).spec_frame() + 1,
            r == slice_offset_thousandths(final(self).spec_frame() as int),
            final(self).spec_noise() == old(self).spec_noise(),
            final(self).spec_dimensions() == old(self).spec_dimensions(),
            final(self).spec_geometry() == old(self).spec_geometry(),
    {
        self.current_frame = self.current_frame + 1;
        self.slice_offset()
    }

    /// Makes `geom` the current geometry; the previous one is dropped.
    pub fn set_geometry(&mut self, geom: G)
        ensures
            final(self).spec_geometry() == Some(geom),
            final(self).spec_frame() == old(self).spec_frame(),
            final(self).spec_noise() == old(self).spec_noise(),
            final(self).spec_dimensions() == old(self).spec_dimensions(),
    {
        self.current_geom = Some(geom);
    }

    /// The geometry built from the latest slice; an error before any was built.
    pub fn get_geometry(&self) -> (r: Result<&G, AnimationError>)
        ensures
            r is Err <==> self.spec_geometry() is None,
            r is Err ==> r->Err_0 == AnimationError::UninitializedGeometry,
            r matches Ok(g) ==> self.spec_geometry() == Some(*g),
    {
        match &self.current_geom {
            Some(g) => Ok(g),
            None => Err(AnimationError::UninitializedGeometry),
        }
    }
}

} // verus!
