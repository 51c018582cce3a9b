//! Tactical combat resolution: formation geometry for grouped combatants,
//! squad cohesion, ranged weapon targeting and firing, projectile motion,
//! and collision / area-of-effect damage resolution.
//!
//! All coordinates are integer grid cells; fractional quantities (weapon
//! range, projectile velocity, explosion radii, accuracy) are carried as
//! fixed-point integers in thousandths ("milli") so that every rule is
//! exact integer arithmetic.

pub mod accuracy;
pub mod circle;
pub mod collision;
pub mod formation;
pub mod geom;
pub mod num;
pub mod projectile;
mod rng;
pub mod squad;
pub mod targeting;
