//! The capability interface that every surface-shading model implements.
//!
//! An integrator queries a material per shading point: it asks for the
//! direct-lighting response of one light sample, asks whether mirror or
//! refraction rays are worth tracing, scales the colors those traced rays
//! return, and reads the index of refraction for its own Snell computation.
//! Each implementation supplies the specification functions that its
//! executable operations are proved against.

use vstd::prelude::*;

use crate::fixed::Fx;
use crate::vec3::Vec3;
use crate::vec3::vec_scale_spec;

verus! {

pub trait Material: Sized {
    /// Parameter sets the model accepts; operations that do arithmetic on
    /// the parameters are specified only for valid materials.
    spec fn valid(&self) -> bool;

    /// The model's direct-lighting response, as an exact function of the
    /// material parameters and the three directions.
    spec fn sample_spec(&self, n: Vec3, i: Vec3, l: Vec3) -> Vec3;

    /// Raw weight applied to traced mirror-reflection rays.
    spec fn global_specular_coeff(&self) -> int;

    /// Raw weight applied to traced refraction rays.
    spec fn global_transmissive_coeff(&self) -> int;

    /// Tint applied to refracted light.
    spec fn transmission_spec(&self) -> Vec3;

    /// Index of refraction.
    spec fn ior_spec(&self) -> Fx;

    /// Color contribution of one light sample: `n` is the unit surface
    /// normal, `i` the unit direction toward the viewer, `l` the unit
    /// direction toward the light.  Light intensity, attenuation and
    /// shadowing are the caller's business; this is only the reflectance.
    fn sample(&self, n: Vec3, i: Vec3, l: Vec3) -> (c: Vec3)
        requires
            self.valid(),
        ensures
            c == self.sample_spec(n, i, l),
    ;

    /// True exactly when the surface reflects, so a mirror ray pays off.
    fn is_reflective(&self) -> (r: bool)
        ensures
            r == (self.global_specular_coeff() > 0),
    ;

    /// True exactly when the surface transmits, so a refraction ray pays off.
    fn is_refractive(&self) -> (r: bool)
        ensures
            r == (self.global_transmissive_coeff() > 0),
    ;

    /// A traced reflection color scaled by the global specular coefficient.
    fn global_specular(&self, color: &Vec3) -> (c: Vec3)
        ensures
            c == vec_scale_spec(*color, self.global_specular_coeff()),
    ;

    /// A traced refraction color scaled by the global transmissive
    /// coefficient.
    fn global_transmissive(&self, color: &Vec3) -> (c: Vec3)
        ensures
            c == vec_scale_spec(*color, self.global_transmissive_coeff()),
    ;

    /// The transmission tint.
    fn transmission(&self) -> (c: Vec3)
        ensures
            c == self.transmission_spec(),
    ;

    /// The index of refraction.
    fn ior(&self) -> (r: Fx)
        ensures
            r == self.ior_spec(),
    ;
}

} // verus!
