pub mod crc;
pub mod frame;
pub mod sensor;
pub mod text;
pub mod clock;
pub mod display;
pub mod ui;
pub mod monitor;
pub mod canvas;
