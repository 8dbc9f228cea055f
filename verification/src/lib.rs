//! Voxel terrain generation: the bookkeeping around cube-marching.
//!
//! A cubic grid of density samples is cut into unit cells; every cell is
//! triangulated on its own and the triangles of all cells are merged into one
//! vertex stream. This crate holds the parts of that pipeline that are
//! decisions over integers and sequences, and proves them:
//!
//! - [`grid`]: coordinates, flat indices and the bijection between them;
//! - [`field`]: the density field, filled once from a sample source;
//! - [`schedule`]: one job for every unit cell, in dispatch order;
//! - [`cell`]: the corners of a cell and the samples found at them;
//! - [`job`]: one job, from corner samples to tagged triangles;
//! - [`aggregate`]: counting the results and flattening them into the stream;
//! - [`pipeline`]: all jobs on the calling thread, and why the way the jobs
//!   are spread over workers does not change what the stream holds;
//! - [`guard`]: at most one generation in flight.
//!
//! The sample type, the vertex type, the sample source and the triangulator
//! are parameters: the crate never looks inside a sample or a vertex.

pub mod aggregate;
pub mod cell;
pub mod field;
pub mod grid;
pub mod guard;
pub mod job;
pub mod pipeline;
pub mod schedule;
