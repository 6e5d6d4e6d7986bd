pub mod text;
pub mod types;
pub mod trie;
pub mod pointer;
pub mod constant;
pub mod slot;
pub mod arith;
pub mod number_slot;
pub mod reference;
pub mod string_slot;
pub mod instruction;
pub mod vm;
pub mod arena;
pub mod decimal;
pub mod sminumber;
pub mod value;
pub mod runtime;
pub mod vm_value;
pub mod mock;
pub mod vm_runtime;
pub mod common;
pub mod lexical;
pub mod environment_record;
pub mod ast;
pub mod context;
pub mod eval;
pub mod declare;
pub mod statement;
pub mod scope_analysis;
pub mod evaluation_context;
pub mod map_pool;
