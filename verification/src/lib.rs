//! A line-oriented formatter for sBPF assembly written as Rust tokens.
//!
//! The input is the token sequence of an assembly block: one instruction,
//! label or directive per source line, optionally followed by `asm!`
//! operands. The library splits off the operands, groups the remaining tokens
//! by source line, renders each line in the canonical assembler spelling and
//! joins the lines into an `asm!` template.
//!
//! Modules:
//! - `token`: the token model (kind, text and source line of each token);
//! - `text`: small string helpers;
//! - `render`: the spelling of one line (`format_instruction`,
//!   `format_memory_operand`, `join_asm_parts`);
//! - `classify`: where the operand list begins (`split_asm_and_operands`);
//! - `lines`: grouping by source line (`group_tokens_by_line`);
//! - `expand`: the three expansions (`kv_asm`, `kv_global_asm`,
//!   `kv_asm_array`);
//! - `laws`: properties of the formatter proved over the specifications.

pub mod token;
pub mod text;
pub mod render;
pub mod classify;
pub mod lines;
pub mod expand;
pub mod laws;

pub use token::{Delimiter, Token, TokenKind};
pub use text::text_eq;
pub use render::{format_instruction, format_memory_operand, ident_to_asm, join_asm_parts};
pub use classify::{
    is_asm_operand_keyword, is_bpf_plain_reg_ident, is_named_operand_start,
    split_asm_and_operands,
};
pub use lines::group_tokens_by_line;
pub use expand::{join_lines, kv_asm, kv_asm_array, kv_global_asm, render_block, AsmTemplate};
