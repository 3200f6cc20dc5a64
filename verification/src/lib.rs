pub mod num;
pub mod sx;
pub mod text;
pub mod value;
pub mod diag;
pub mod ast;
pub mod checker;
pub mod fold;
pub mod same;
pub mod scopes;
pub mod types;
pub mod naming;
pub mod enums;
pub mod globals;
pub mod surface;
pub mod workbook;
pub mod helpers;
pub mod merge;
pub mod overloads;
pub mod laws;
pub mod invariance;
pub mod params;
pub mod payloads;
pub mod components;
pub mod binops;
pub mod declare;
pub mod models;
pub mod semantics;
pub mod factoring;
