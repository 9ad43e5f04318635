//! Transpiles a resolved relational schema description (tables, columns,
//! indexes, enumerations and foreign-key relations) into the text of ORM
//! entity modules: relation direction resolution, field attribute
//! derivation, entity assembly and a generic indentation-aware emitter.

pub mod balance;
pub mod emitter;
pub mod fields;
pub mod names;
pub mod refs;
pub mod schema;
pub mod transpiler;
