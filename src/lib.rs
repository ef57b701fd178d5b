pub mod screen_buffer;
pub mod video;
pub mod text;
pub mod config;
pub mod postfx;
pub mod timing;
pub mod rng;
pub mod capture;
pub mod machines;
pub mod lab;
pub mod sdl_display_core;
