use kv_asm::{
    format_instruction, format_memory_operand, group_tokens_by_line, ident_to_asm,
    is_asm_operand_keyword, is_bpf_plain_reg_ident, is_named_operand_start, join_asm_parts,
    join_lines, kv_asm, kv_asm_array, kv_global_asm, split_asm_and_operands, text_eq, Delimiter,
    Token, TokenKind,
};
use proc_macro2::{TokenStream, TokenTree};

fn own_tokens(stream: TokenStream) -> Vec<Token> {
    stream.into_iter().map(|tree| own_token(&tree)).collect()
}

fn own_token(tree: &TokenTree) -> Token {
    let line = tree.span().start().line;
    let kind = match tree {
        TokenTree::Ident(ident) => TokenKind::Ident(ident.to_string()),
        TokenTree::Literal(lit) => TokenKind::Literal(lit.to_string()),
        TokenTree::Punct(punct) => TokenKind::Punct(punct.as_char()),
        TokenTree::Group(group) => {
            let delimiter = match group.delimiter() {
                proc_macro2::Delimiter::Parenthesis => Delimiter::Parenthesis,
                proc_macro2::Delimiter::Brace => Delimiter::Brace,
                proc_macro2::Delimiter::Bracket => Delimiter::Bracket,
                proc_macro2::Delimiter::None => Delimiter::Invisible,
            };
            TokenKind::Group(delimiter, own_tokens(group.stream()))
        }
    };
    Token { kind, line }
}

fn tokens_of(source: &str) -> Vec<Token> {
    own_tokens(source.parse().expect("source tokenizes"))
}

fn ident(text: &str, line: usize) -> Token {
    Token { kind: TokenKind::Ident(text.to_string()), line }
}

fn punct(c: char, line: usize) -> Token {
    Token { kind: TokenKind::Punct(c), line }
}

fn literal(text: &str, line: usize) -> Token {
    Token { kind: TokenKind::Literal(text.to_string()), line }
}

fn strings(parts: &[&str]) -> Vec<String> {
    parts.iter().map(|p| p.to_string()).collect()
}

// -- Operands ------------------------------------------------------------------------------

#[test]
fn operands_begin_at_the_first_keyword_line() {
    let tokens = tokens_of("mov64 r0, 1\nin(\"r1\") x,\nlateout(\"r0\") _,");
    let expansion = kv_asm(&tokens);
    assert_eq!(expansion.template, "mov64 r0, 1");
    assert_eq!(expansion.operand_start, 4);
    assert!(expansion.options_raw);
    let (instructions, operands) = split_asm_and_operands(&tokens);
    assert_eq!(instructions.len(), 4);
    assert_eq!(operands.len(), tokens.len() - 4);
}

#[test]
fn keyword_inside_a_line_is_an_instruction_operand() {
    let tokens = tokens_of("mov64 out, 1");
    let expansion = kv_asm(&tokens);
    assert_eq!(expansion.template, "mov64 out, 1");
    assert_eq!(expansion.operand_start, tokens.len());
}

#[test]
fn named_operand_starts_the_operand_list() {
    let tokens = tokens_of("exit\nx = in(reg) y,");
    let expansion = kv_asm(&tokens);
    assert_eq!(expansion.template, "exit");
    assert_eq!(expansion.operand_start, 1);
    assert!(is_named_operand_start(&tokens, 1));
    assert!(!is_named_operand_start(&tokens, 0));
    assert!(!is_named_operand_start(&tokens, tokens.len() - 1));
    assert!(!is_named_operand_start(&tokens, tokens.len() + 3));
}

#[test]
fn register_assignment_stays_an_instruction() {
    let lines = kv_asm_array(&tokens_of("r3 = le16 r3\nw3 = 1\nr#r4 = 2"));
    assert_eq!(lines, vec!["r3 = le16 r3", "w3 = 1", "r4 = 2"]);
}

#[test]
fn every_operand_keyword_is_recognised() {
    for word in ["in", "out", "inout", "lateout", "inlateout", "const", "sym", "options", "clobber_abi"] {
        assert!(is_asm_operand_keyword(&ident(word, 1)), "{word}");
    }
    for word in ["input", "inn", "r#in", "clobber", "optionss", "mov64"] {
        assert!(!is_asm_operand_keyword(&ident(word, 1)), "{word}");
    }
    assert!(!is_asm_operand_keyword(&literal("in", 1)));
    assert!(!is_asm_operand_keyword(&punct('=', 1)));
}

#[test]
fn plain_registers_are_r_or_w_and_digits() {
    assert!(is_bpf_plain_reg_ident("r10"));
    assert!(is_bpf_plain_reg_ident("w3"));
    assert!(is_bpf_plain_reg_ident("r#r1"));
    assert!(!is_bpf_plain_reg_ident("r"));
    assert!(!is_bpf_plain_reg_ident("rx"));
    assert!(!is_bpf_plain_reg_ident("x1"));
    assert!(!is_bpf_plain_reg_ident("r1a"));
    assert!(!is_bpf_plain_reg_ident(""));
}

// -- Expansions ----------------------------------------------------------------------------

#[test]
fn global_asm_adds_raw_only_without_operands() {
    let plain = kv_global_asm(&tokens_of(".globl entrypoint\nentrypoint:\nexit"));
    assert_eq!(plain.template, ".globl entrypoint\nentrypoint:\nexit");
    assert!(plain.options_raw);

    let tokens = tokens_of("call {f}\nsym f = sym process,");
    let with_operands = kv_global_asm(&tokens);
    assert_eq!(with_operands.template, "call {f}");
    assert_eq!(with_operands.operand_start, 2);
    assert!(!with_operands.options_raw);

    let empty = kv_global_asm(&[]);
    assert_eq!(empty.template, "");
    assert_eq!(empty.operand_start, 0);
    assert!(!empty.options_raw);
}

#[test]
fn inline_and_global_templates_agree() {
    let tokens = tokens_of("ldxdw r1, [r2 - 8]\ncall process\nexit");
    assert_eq!(kv_asm(&tokens).template, kv_global_asm(&tokens).template);
    assert_eq!(kv_asm(&tokens).template, "ldxdw r1, [r2-8]\ncall process\nexit");
}

#[test]
fn template_is_the_lines_joined_by_newlines() {
    let tokens = tokens_of("mov r0, 0\nadd r1, r2\nexit");
    let lines = kv_asm_array(&tokens);
    assert_eq!(kv_asm(&tokens).template, lines.join("\n"));
    assert_eq!(join_lines(&lines), "mov r0, 0\nadd r1, r2\nexit");
    assert_eq!(join_lines(&[]), "");
    assert_eq!(join_lines(&strings(&["exit"])), "exit");
}

#[test]
fn empty_input_expands_to_nothing() {
    assert!(kv_asm_array(&[]).is_empty());
    let expansion = kv_asm(&[]);
    assert_eq!(expansion.template, "");
    assert_eq!(expansion.operand_start, 0);
    assert!(expansion.options_raw);
}

#[test]
fn blank_lines_and_comments_are_stripped() {
    let lines = kv_asm_array(&tokens_of("exit\n\n// a comment\n\n   exit"));
    assert_eq!(lines, vec!["exit", "exit"]);
}

#[test]
fn invisible_empty_group_gives_no_line() {
    let tokens = vec![
        Token { kind: TokenKind::Group(Delimiter::Invisible, vec![]), line: 1 },
        ident("exit", 2),
    ];
    assert_eq!(kv_asm_array(&tokens), vec!["exit"]);
}

// -- Line rendering ------------------------------------------------------------------------

#[test]
fn raw_identifiers_lose_their_prefix() {
    assert_eq!(ident_to_asm("r#mod"), "mod");
    assert_eq!(ident_to_asm("r#"), "");
    assert_eq!(ident_to_asm("r"), "r");
    assert_eq!(ident_to_asm("mod"), "mod");
    assert_eq!(kv_asm_array(&tokens_of("r#mod r3, r4")), vec!["mod r3, r4"]);
}

#[test]
fn percent_equals_is_glued() {
    assert_eq!(kv_asm_array(&tokens_of("x %= 3")), vec!["x %= 3"]);
    assert_eq!(kv_asm_array(&tokens_of("x % 3")), vec!["x % 3"]);
}

#[test]
fn braces_and_parentheses_keep_their_delimiters() {
    assert_eq!(kv_asm_array(&tokens_of("call {sym}")), vec!["call {sym}"]);
    assert_eq!(kv_asm_array(&tokens_of("foo (a + 1)")), vec!["foo (a+1)"]);
}

#[test]
fn nested_groups_in_an_operand_lose_their_delimiters() {
    assert_eq!(kv_asm_array(&tokens_of("ldxdw r1, [r2 + (8)]")), vec!["ldxdw r1, [r2+8]"]);
}

#[test]
fn sign_before_an_identifier_in_an_operand_is_glued() {
    assert_eq!(kv_asm_array(&tokens_of("ldxdw r1, [r2 - off]")), vec!["ldxdw r1, [r2-off]"]);
    assert_eq!(kv_asm_array(&tokens_of("ldxdw r1, [r2 + r#in]")), vec!["ldxdw r1, [r2+r#in]"]);
}

#[test]
fn memory_operand_text() {
    let inner = vec![ident("r1", 1), punct('+', 1), literal("8", 1)];
    assert_eq!(format_memory_operand(&inner), "r1+8");
    let trailing = vec![ident("r1", 1), punct('-', 1)];
    assert_eq!(format_memory_operand(&trailing), "r1-");
    let star = vec![punct('*', 1), ident("r2", 1)];
    assert_eq!(format_memory_operand(&star), "*r2");
    assert_eq!(format_memory_operand(&[]), "");
}

#[test]
fn instruction_parts_are_joined_by_rules() {
    assert_eq!(join_asm_parts(&strings(&["mov", "r0", ",", "1"])), "mov r0, 1");
    assert_eq!(join_asm_parts(&strings(&["a", "[b]", "c"])), "a [b]c");
    assert_eq!(join_asm_parts(&strings(&["ja", "+5"])), "ja +5");
    assert_eq!(join_asm_parts(&strings(&["l", ":", "exit"])), "l: exit");
    assert_eq!(join_asm_parts(&strings(&[",", "x"])), ", x");
    assert_eq!(join_asm_parts(&[]), "");
}

#[test]
fn a_signed_offset_without_literal_stays_apart() {
    let tokens = vec![ident("ja", 1), punct('+', 1), ident("label", 1)];
    let refs: Vec<&Token> = tokens.iter().collect();
    assert_eq!(format_instruction(&refs), "ja + label");
}

#[test]
fn tokens_are_grouped_by_line() {
    let tokens = vec![ident("a", 1), ident("b", 1), ident("c", 2), ident("d", 1), ident("e", 1)];
    let refs: Vec<&Token> = tokens.iter().collect();
    let groups = group_tokens_by_line(&refs);
    let sizes: Vec<usize> = groups.iter().map(|g| g.len()).collect();
    assert_eq!(sizes, vec![2, 1, 2]);
    assert!(group_tokens_by_line(&[]).is_empty());
}

#[test]
fn text_equality_is_by_character() {
    assert!(text_eq("abc", "abc"));
    assert!(!text_eq("abc", "abd"));
    assert!(!text_eq("abc", "ab"));
    assert!(text_eq("", ""));
}
