//! Joint-constraint data model of a rigid-body physics engine: the six
//! degrees of freedom of a joint, the generic joint that every named joint
//! reduces to, the spring joint, and the articulation forest that groups
//! joints into multibodies.
//!
//! Bodies, pairwise joints and the edges of the forest are reached through
//! handles that go stale when what they stand for is removed. Scalars are
//! carried as bit patterns, so that the whole model is plain data.

pub mod arena;
pub mod axes_mask;
pub mod axis;
pub mod body;
pub mod error;
pub mod forest;
pub mod generic_joint;
pub mod impulse_joint;
pub mod math;
pub mod motor;
pub mod multibody;
pub mod spring_joint;
