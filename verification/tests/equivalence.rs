use kv_asm::{kv_asm_array, Delimiter, Token, TokenKind};
use proc_macro2::{TokenStream, TokenTree};

fn block_tokens(stream: TokenStream) -> Vec<Token> {
    stream.into_iter().map(|tree| block_token(&tree)).collect()
}

fn block_token(tree: &TokenTree) -> Token {
    let line = tree.span().start().line;
    let kind = match tree {
        TokenTree::Ident(ident) => TokenKind::Ident(ident.to_string()),
        TokenTree::Literal(lit) => TokenKind::Literal(lit.to_string()),
        TokenTree::Punct(punct) => TokenKind::Punct(punct.as_char()),
        TokenTree::Group(group) => {
            let delimiter = match group.delimiter() {
                proc_macro2::Delimiter::Parenthesis => Delimiter::Parenthesis,
                proc_macro2::Delimiter::Brace => Delimiter::Brace,
                proc_macro2::Delimiter::Bracket => Delimiter::Bracket,
                proc_macro2::Delimiter::None => Delimiter::Invisible,
            };
            TokenKind::Group(delimiter, block_tokens(group.stream()))
        }
    };
    Token { kind, line }
}

/// The lines of an assembly block written one instruction per source line.
fn block_lines(source: &str) -> Vec<String> {
    let stream: TokenStream = source.parse().expect("source tokenizes");
    kv_asm_array(&block_tokens(stream))
}
/// Asserts that the formatted lines are exactly the expected ones, in order.
fn assert_eq_lines(actual: &[String], expected: &[&str]) {
    assert_eq!(
        actual.len(),
        expected.len(),
        "line count mismatch:\n  actual:   {actual:?}\n  expected: {expected:?}",
    );
    for (i, (a, e)) in actual.iter().zip(expected.iter()).enumerate() {
        assert_eq!(a, e, "line {i} differs");
    }
}

// -- 64-bit ALU, register form --------------------------------------------------------------

#[test]
fn class_alu64_reg() {
    let lines = block_lines("add64 r3, r4\nsub64 r3, r4\nor64 r3, r4\nand64 r3, r4\nlsh64 r3, r4\nrsh64 r3, r4\nxor64 r3, r4\nmov64 r3, r4\narsh64 r3, r4");
    assert_eq_lines(
        &lines,
        &[
            "add64 r3, r4",
            "sub64 r3, r4",
            "or64 r3, r4",
            "and64 r3, r4",
            "lsh64 r3, r4",
            "rsh64 r3, r4",
            "xor64 r3, r4",
            "mov64 r3, r4",
            "arsh64 r3, r4",
        ],
    );
}

// -- 64-bit ALU, immediate form -------------------------------------------------------------

#[test]
fn class_alu64_imm() {
    let lines = block_lines("add64 r3, 2\nsub64 r3, 2\nor64 r3, 2\nand64 r3, 2\nlsh64 r3, 2\nrsh64 r3, 2\nxor64 r3, 2\nmov64 r3, 2\narsh64 r3, 2\nhor64 r3, 0x10000\nmov64 r3, -1\nmov64 r3, 0x44556678");
    assert_eq_lines(
        &lines,
        &[
            "add64 r3, 2",
            "sub64 r3, 2",
            "or64 r3, 2",
            "and64 r3, 2",
            "lsh64 r3, 2",
            "rsh64 r3, 2",
            "xor64 r3, 2",
            "mov64 r3, 2",
            "arsh64 r3, 2",
            "hor64 r3, 0x10000",
            "mov64 r3, -1",
            "mov64 r3, 0x44556678",
        ],
    );
}

// -- 32-bit ALU (LLVM uses `w` register view) ----------------------------------------------

#[test]
fn class_alu32() {
    let lines = block_lines("add32 w3, w4\nsub32 w3, 1\nmov32 w3, 0x12345678\narsh32 w3, w4\nlsh32 w3, 1");
    assert_eq_lines(
        &lines,
        &[
            "add32 w3, w4",
            "sub32 w3, 1",
            "mov32 w3, 0x12345678",
            "arsh32 w3, w4",
            "lsh32 w3, 1",
        ],
    );
}

// -- PQR (v2) -------------------------------------------------------------------------------

#[test]
fn class_pqr() {
    let lines = block_lines("lmul64 r3, r4\nuhmul64 r3, r4\nshmul64 r3, r4\nudiv64 r3, r4\nurem64 r3, r4\nsdiv64 r3, r4\nsrem64 r3, r4\nlmul32 w3, w4\nudiv32 w3, 2");
    assert_eq_lines(
        &lines,
        &[
            "lmul64 r3, r4",
            "uhmul64 r3, r4",
            "shmul64 r3, r4",
            "udiv64 r3, r4",
            "urem64 r3, r4",
            "sdiv64 r3, r4",
            "srem64 r3, r4",
            "lmul32 w3, w4",
            "udiv32 w3, 2",
        ],
    );
}

// -- Memory: stores -------------------------------------------------------------------------

#[test]
fn class_stores_imm() {
    let lines = block_lines("stb [r10 - 24], 0x42\nsth [r10 - 26], 0x1234\nstw [r10 - 28], 0x12345678\nstdw [r10 - 36], 0x12345678");
    assert_eq_lines(
        &lines,
        &[
            "stb [r10-24], 0x42",
            "sth [r10-26], 0x1234",
            "stw [r10-28], 0x12345678",
            "stdw [r10-36], 0x12345678",
        ],
    );
}

#[test]
fn class_stores_reg() {
    let lines = block_lines("stxb [r10 - 44], r3\nstxh [r10 - 46], r3\nstxw [r10 - 48], r3\nstxdw [r10 - 56], r3");
    assert_eq_lines(
        &lines,
        &[
            "stxb [r10-44], r3",
            "stxh [r10-46], r3",
            "stxw [r10-48], r3",
            "stxdw [r10-56], r3",
        ],
    );
}

// -- Memory: loads --------------------------------------------------------------------------

#[test]
fn class_loads() {
    let lines = block_lines("ldxb r4, [r3 + 0]\nldxh r4, [r3 + 0]\nldxw r4, [r3 + 0]\nldxdw r4, [r3 + -32]\nldxdw r4, [r3 - 32]");
    assert_eq_lines(
        &lines,
        &[
            "ldxb r4, [r3+0]",
            "ldxh r4, [r3+0]",
            "ldxw r4, [r3+0]",
            "ldxdw r4, [r3+-32]",
            "ldxdw r4, [r3-32]",
        ],
    );
}

// -- Jumps: 64-bit (LLVM only accepts the base spelling) -----------------------------------

#[test]
fn class_jumps_reg() {
    let lines = block_lines("jeq r3, r4, +1\njne r3, r4, +1\njgt r3, r4, +1\njge r3, r4, +1\njlt r3, r4, +1\njle r3, r4, +1\njsgt r3, r4, +1\njsge r3, r4, +1\njslt r3, r4, +1\njsle r3, r4, +1\nja +1\nja -3");
    assert_eq_lines(
        &lines,
        &[
            "jeq r3, r4, +1",
            "jne r3, r4, +1",
            "jgt r3, r4, +1",
            "jge r3, r4, +1",
            "jlt r3, r4, +1",
            "jle r3, r4, +1",
            "jsgt r3, r4, +1",
            "jsge r3, r4, +1",
            "jslt r3, r4, +1",
            "jsle r3, r4, +1",
            "ja +1",
            "ja -3",
        ],
    );
}

#[test]
fn class_jumps_imm_and_label() {
    let lines = block_lines("jeq r3, 0, +1\njne r3, 0xff, -2\nja my_label\njne r3, 0x8, +37");
    assert_eq_lines(
        &lines,
        &[
            "jeq r3, 0, +1",
            "jne r3, 0xff, -2",
            "ja my_label",
            "jne r3, 0x8, +37",
        ],
    );
}

// -- Endian swaps

#[test]
fn class_endian() {
    let lines = block_lines("be16 r3\nbe32 r3\nbe64 r3");
    assert_eq_lines(&lines, &["be16 r3", "be32 r3", "be64 r3"]);
}

// -- Calls / labels -------------------------------------------------------------------------

#[test]
fn class_calls_and_labels() {
    let lines = block_lines("call sol_log_\ncall cal_a\ncallx r9\ncal_a:\nmov64 r0, 0\nexit\npast_cal_a:\nja past_cal_a\nsyscall abort");
    assert_eq_lines(
        &lines,
        &[
            "call sol_log_",
            "call cal_a",
            "callx r9",
            "cal_a:",
            "mov64 r0, 0",
            "exit",
            "past_cal_a:",
            "ja past_cal_a",
            "syscall abort",
        ],
    );
}

// -- Assembler directives (an entrypoint definition) ---------------------------------------

#[test]
fn class_directives_for_global_asm() {
    let lines = block_lines(".globl entrypoint\n.type entrypoint, @function\n.section .text\nentrypoint:\nldxdw r1, [r2 - 8]\ncall process\nexit");
    assert_eq_lines(
        &lines,
        &[
            ".globl entrypoint",
            ".type entrypoint, @function",
            ".section .text",
            "entrypoint:",
            "ldxdw r1, [r2-8]",
            "call process",
            "exit",
        ],
    );
}

// -- A whole program body ------------------------------------------------------------------
//
// A representative program block must come out exactly as a hand-written `asm!` template
// would spell it, line by line and joined.

#[test]
fn end_to_end_museum_excerpt() {
    let lines = block_lines("stxdw [r10 - 8], r1\nstxdw [r10 - 16], r2\ncall cal_a\nmov64 r7, 1\nja past_cal_a\ncal_a:\nmov64 r0, 0\nexit\npast_cal_a:\nmov64 r3, 0x44556678\nlsh64 r3, 32\nor64 r3, 0x11223344\nadd64 r3, r4\nhor64 r3, 0x10000\nlmul64 r3, r4\nsdiv64 r3, r4\nmov32 w3, 0x12345678\nadd32 w3, w4\nldxdw r1, [r10 - 8]\nldxdw r2, [r10 - 16]\ncall sol_log_");

    let expected = &[
        "stxdw [r10-8], r1",
        "stxdw [r10-16], r2",
        "call cal_a",
        "mov64 r7, 1",
        "ja past_cal_a",
        "cal_a:",
        "mov64 r0, 0",
        "exit",
        "past_cal_a:",
        "mov64 r3, 0x44556678",
        "lsh64 r3, 32",
        "or64 r3, 0x11223344",
        "add64 r3, r4",
        "hor64 r3, 0x10000",
        "lmul64 r3, r4",
        "sdiv64 r3, r4",
        "mov32 w3, 0x12345678",
        "add32 w3, w4",
        "ldxdw r1, [r10-8]",
        "ldxdw r2, [r10-16]",
        "call sol_log_",
    ];
    assert_eq_lines(&lines, expected);

    // The template is the lines joined by newlines.
    let template = lines.join("\n");
    assert_eq!(template, expected.join("\n"));
}
