//! Verified core logic of the WutEngine runtime: input state, event dispatch,
//! system scheduling, window bookkeeping and graphics resource validation.

pub mod camera;
pub mod color;
pub mod components;
pub mod egui;
pub mod event;
pub mod graphics;
pub mod input;
pub mod logger;
pub mod query;
pub mod schedule;
pub mod shader;
pub mod window;

pub mod texture;
pub mod util;
