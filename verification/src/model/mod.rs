pub mod address;
pub mod other;
pub mod packet;
