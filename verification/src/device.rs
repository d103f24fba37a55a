//! The graphics device, modeled by what its pipeline builders hand back.
//!
//! Turning bytecode into a device pipeline object is the work of the
//! graphics API, an outside collaborator. Under memoized compilation the
//! bytecode a builder consumes is fixed by the entry's compile task, so a
//! device is modeled per frame by the object (or rejection) its builder
//! returns for each registered handle. The cache is verified for every
//! such table; the host hands it the one its real device produced.

use vstd::prelude::*;

verus! {

/// A device compute pipeline object, by its raw handle.
#[derive(Clone, Copy, PartialEq, Eq, Structural, Debug)]
pub struct ComputePipeline {
    pub raw: u64,
}

/// A device raster pipeline object, by its raw handle.
#[derive(Clone, Copy, PartialEq, Eq, Structural, Debug)]
pub struct RasterPipeline {
    pub raw: u64,
}

/// A device ray-tracing pipeline object, by its raw handle.
#[derive(Clone, Copy, PartialEq, Eq, Structural, Debug)]
pub struct RayTracingPipeline {
    pub raw: u64,
}

/// What one category of builds resolved to, per handle index.
pub open spec fn builds_view<T>(s: Seq<(usize, Result<T, String>)>) -> Seq<
    (int, Result<T, Seq<char>>),
> {
    s.map_values(
        |e: (usize, Result<T, String>)|
            (
                e.0 as int,
                match e.1 {
                    Ok(p) => Ok::<T, Seq<char>>(p),
                    Err(m) => Err::<T, Seq<char>>(m@),
                },
            ),
    )
}

/// Holds of a build recorded for the handle `h`.
pub open spec fn build_for<T>(h: int) -> spec_fn(int, (int, Result<T, Seq<char>>)) -> bool {
    |i: int, e: (int, Result<T, Seq<char>>)| e.0 == h
}

/// What the device's builder returned for a handle; a handle for which the
/// device recorded no response counts as a rejected build.
pub open spec fn build_result<T>(s: Seq<(int, Result<T, Seq<char>>)>, h: int) -> Result<
    T,
    Seq<char>,
> {
    match crate::search::first_where(s, build_for(h)) {
        Some(i) => s[i].1,
        None => Err(Seq::empty()),
    }
}

/// The device's responses for one frame's pipeline builds, one table per
/// pipeline category, keyed by handle index.
pub struct Device {
    pub compute_builds: Vec<(usize, Result<ComputePipeline, String>)>,
    pub raster_builds: Vec<(usize, Result<RasterPipeline, String>)>,
    pub rt_builds: Vec<(usize, Result<RayTracingPipeline, String>)>,
}

/// Mathematical value of a [`Device`].
#[verifier::ext_equal]
pub struct DeviceV {
    pub compute: Seq<(int, Result<ComputePipeline, Seq<char>>)>,
    pub raster: Seq<(int, Result<RasterPipeline, Seq<char>>)>,
    pub rt: Seq<(int, Result<RayTracingPipeline, Seq<char>>)>,
}

impl View for Device {
    type V = DeviceV;

    open spec fn view(&self) -> DeviceV {
        DeviceV {
            compute: builds_view(self.compute_builds@),
            raster: builds_view(self.raster_builds@),
            rt: builds_view(self.rt_builds@),
        }
    }
}

/// Finds the build recorded for a handle, as `build_result` states.
fn lookup_build<T: Copy>(s: &Vec<(usize, Result<T, String>)>, h: usize) -> (r: Result<T, String>)
    ensures
        (match r {
            Ok(p) => build_result(builds_view(s@), h as int) == Ok::<T, Seq<char>>(p),
            Err(m) => build_result(builds_view(s@), h as int) == Err::<T, Seq<char>>(m@),
        }),
{
    let ghost sv = builds_view(s@);
    let ghost p = build_for::<T>(h as int);
    let n = s.len();
    for i in 0..n
        invariant
            n == s.len(),
            sv == builds_view(s@),
            p == build_for::<T>(h as int),
            forall|j: int| 0 <= j < i ==> !p(j, sv[j]),
    {
        if s[i].0 == h {
            proof {
                crate::search::lemma_first_where_is(sv, p, i as int);
            }
            let r = match &s[i].1 {
                Ok(obj) => Ok(*obj),
                Err(m) => Err(m.clone()),
            };
            return r;
        }
        proof {
            assert(sv[i as int] == builds_view(s@)[i as int]);
        }
    }
    proof {
        crate::search::lemma_first_where(sv, p);
    }
    Err(String::new())
}

impl Device {
    /// The device's response to building the compute pipeline of a handle.
    pub fn build_compute(&self, handle: usize) -> (r: Result<ComputePipeline, String>)
        ensures
            (match r {
                Ok(p) => build_result(self@.compute, handle as int) == Ok::<
                    ComputePipeline,
                    Seq<char>,
                >(p),
                Err(m) => build_result(self@.compute, handle as int) == Err::<
                    ComputePipeline,
                    Seq<char>,
                >(m@),
            }),
    {
        lookup_build(&self.compute_builds, handle)
    }

    /// The device's response to building the raster pipeline of a handle.
    pub fn build_raster(&self, handle: usize) -> (r: Result<RasterPipeline, String>)
        ensures
            (match r {
                Ok(p) => build_result(self@.raster, handle as int) == Ok::<
                    RasterPipeline,
                    Seq<char>,
                >(p),
                Err(m) => build_result(self@.raster, handle as int) == Err::<
                    RasterPipeline,
                    Seq<char>,
                >(m@),
            }),
    {
        lookup_build(&self.raster_builds, handle)
    }

    /// The device's response to building the ray-tracing pipeline of a handle.
    pub fn build_ray_tracing(&self, handle: usize) -> (r: Result<RayTracingPipeline, String>)
        ensures
            (match r {
                Ok(p) => build_result(self@.rt, handle as int) == Ok::<
                    RayTracingPipeline,
                    Seq<char>,
                >(p),
                Err(m) => build_result(self@.rt, handle as int) == Err::<
                    RayTracingPipeline,
                    Seq<char>,
                >(m@),
            }),
    {
        lookup_build(&self.rt_builds, handle)
    }
}

} // verus!
