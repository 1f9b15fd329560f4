pub mod binfile;
pub mod text;
pub mod time;
