//! A small virtual machine for JVM class files: a class-file importer, a
//! bytecode resolver that rewrites constant-pool-indexed instruction streams
//! into fully typed instructions with absolute jump targets, and an execution
//! engine with a class/method registry, a growable object heap, and an
//! interpreter.

pub mod strutil;
pub mod class;
pub mod fatops;
pub mod descriptor;
pub mod opcodes;
pub mod svec;
pub mod import;
pub mod field;
pub mod jar;
pub mod heap;
pub mod registry;
pub mod interp;
pub mod engine;

pub use crate::import::{JavaClassFile, JavaImportError};
pub use crate::import::{Utf8, ClassInfo};
