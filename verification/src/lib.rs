//! Steering decisions for a small line-following vehicle.
//!
//! A video frame arrives already classified into four binary masks: left
//! boundary, right boundary, obstacle and finish line. From these the
//! library picks one steering angle per frame by casting rays from the
//! bottom centre of the frame, smooths it with a proportional-integral
//! filter and says what the actuator is to be told.
//!
//! All arithmetic is on integers. Search angles are whole degrees, commands
//! and gains count millionths, and tangents are held to 58 binary places.
//!
//! A plainer follower that reads the two line masks only is in [`follow`].

pub mod config;
pub mod document;
pub mod drive;
pub mod fixed;
pub mod follow;
pub mod geometry;
pub mod mask;
pub mod proximity;
pub mod ray;
pub mod search;
pub mod tangent;
