//! dry-core: the plain-value core of the Dry toolpath compiler.
use vstd::prelude::*;

pub mod contour;
pub mod generate;
pub mod ir;
pub mod multi_head;
pub mod multi_robot;
pub mod optimize;
pub mod pass;
pub mod physics;
pub mod pipeline;
pub mod profile;
pub mod provenance;
pub mod recommend;
pub mod report;
pub mod reverse;
pub mod schema;
pub mod step_nc;
pub mod text;
pub mod tool;
pub mod trace;
pub mod verify;
