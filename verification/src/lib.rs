pub mod eye;
pub mod frame_loop;
pub mod pattern;
pub mod policy;
pub mod tick;
