//! Temporal synchronization and interpolation engine for mobile LIDAR
//! motion compensation.
//!
//! The crate walks a binary point stream and a pose (trajectory) stream in
//! lockstep, keeps a bracketing pose window around each point's timestamp,
//! validates time-range coverage, interpolates platform positions, and
//! produces corrected records in a fixed binary layout.
//!
//! Timestamps and coordinates are fixed-point integers (see [`traj`]); the
//! scale is the caller's choice and plays no role in the logic. Payload
//! fields that the engine never reads (intensities, ranges, orientation
//! quaternions) are carried as raw IEEE-754 bit patterns.

pub mod check_timestamps;
pub mod errors;
pub mod interp;
pub mod ply;
pub mod sync;
pub mod traj;
