//! A discrete-time simulator of rigid bodies in the plane: circles and convex
//! polygons that fall, collide and come to rest on one another.
pub mod body;
pub mod manifold;
pub mod math;
pub mod random;
pub mod scene;
