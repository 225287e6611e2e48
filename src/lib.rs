pub mod vga_buffer;
pub mod lemmas;
