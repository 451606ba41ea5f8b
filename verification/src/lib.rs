pub mod inflector;
pub mod ir;
pub mod nim;
pub mod proto;
pub mod text;
pub mod zig;
