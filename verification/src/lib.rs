pub mod capture;
pub mod commands;
pub mod export;
pub mod ir;
pub mod markup;
pub mod redact;
pub mod text;
pub mod theme;
