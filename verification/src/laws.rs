use vstd::prelude::*;
use crate::classify::{first_operand_from, is_plain_register, operand_start, operand_keyword_token, starts_operands};
use crate::expand::{asm_lines, keep_nonempty, newline_joined, rendered_runs};
use crate::lines::{line_runs, run_views};
use crate::render::{derefs, texts, asm_name, instruction_text, joined, joined_prefix, parts_from, part_at, operand_text, group_text, rendered_part};
use crate::token::{Delimiter, Token, TokenKind};

verus! {

proof fn lemma_first_operand_is_least(ts: Seq<Token>, i: int)
    requires
        0 <= i <= ts.len(),
    ensures
        i <= first_operand_from(ts, i) <= ts.len(),
        forall|j: int| i <= j < first_operand_from(ts, i) ==> !starts_operands(ts, j),
        first_operand_from(ts, i) < ts.len() ==> starts_operands(ts, first_operand_from(ts, i)),
    decreases ts.len() - i,
{
    if i < ts.len() && !starts_operands(ts, i) {
        lemma_first_operand_is_least(ts, i + 1);
    }
}

/// The operands of a block begin at the first token that opens a source line
/// with an operand keyword or a named operand (or at the end, if none does),
/// and the block is exactly its instruction tokens followed by its operand
/// tokens, which are passed through unchanged.
pub proof fn law_operands_are_the_suffix_from_the_first_operand_line(ts: Seq<Token>)
    ensures
        0 <= operand_start(ts) <= ts.len(),
        forall|j: int| 0 <= j < operand_start(ts) ==> !starts_operands(ts, j),
        operand_start(ts) < ts.len() ==> starts_operands(ts, operand_start(ts)),
        ts.take(operand_start(ts)) + ts.skip(operand_start(ts)) == ts,
{
    lemma_first_operand_is_least(ts, 0);
    assert(ts.take(operand_start(ts)) + ts.skip(operand_start(ts)) =~= ts);
}

/// Grouping by source line loses and reorders nothing, every group is a
/// non-empty run of tokens on one line, and neighbouring groups are on
/// different lines.
pub proof fn law_line_runs_partition_the_tokens(ts: Seq<Token>)
    ensures
        line_runs(ts).flatten() == ts,
        forall|g: int| 0 <= g < line_runs(ts).len() ==> #[trigger] line_runs(ts)[g].len() > 0,
        forall|g: int, j: int|
            0 <= g < line_runs(ts).len() && 0 <= j < line_runs(ts)[g].len() ==> #[trigger] line_runs(
                ts,
            )[g][j].line == line_runs(ts)[g][0].line,
        forall|g: int|
            0 <= g < line_runs(ts).len() - 1 ==> #[trigger] line_runs(ts)[g].last().line
                != line_runs(ts)[g + 1][0].line,
    decreases ts.len(),
{
    let runs = line_runs(ts);
    if ts.len() > 0 {
        let prev = ts.drop_last();
        let r = line_runs(prev);
        law_line_runs_partition_the_tokens(prev);
        r.lemma_flatten_and_flatten_alt_are_equivalent();
        runs.lemma_flatten_and_flatten_alt_are_equivalent();
        if ts.len() >= 2 && ts[ts.len() - 2].line == ts.last().line {
            assert(r.len() > 0) by {
                if r.len() == 0 {
                    assert(r.flatten() =~= Seq::<Token>::empty());
                }
            }
            assert(runs.drop_last() =~= r.drop_last());
            assert(r.drop_last().flatten_alt() + r.last() == r.flatten_alt());
            assert(r.flatten_alt() =~= prev);
            assert(runs.flatten_alt() == runs.drop_last().flatten_alt() + runs.last());
            assert(runs.last() == r.last().push(ts.last()));
            assert(ts =~= prev.push(ts.last()));
            assert(runs.flatten_alt() =~= ts);
            assert(r.last().last() == prev.last()) by {
                r.lemma_flatten_and_flatten_alt_are_equivalent();
            }
        } else {
            assert(runs.drop_last() =~= r);
            assert(runs.flatten_alt() =~= ts);
            if r.len() > 0 {
                assert(r.last().last() == prev.last());
            }
        }
    } else {
        assert(runs.flatten() =~= ts);
    }
}

/// Blank lines are stripped: no assembler line of a block is empty, and a
/// block has at most one assembler line per source line of its instructions.
pub proof fn law_one_nonempty_line_per_source_line(ts: Seq<Token>)
    ensures
        forall|i: int| 0 <= i < asm_lines(ts).len() ==> #[trigger] asm_lines(ts)[i].len() > 0,
        asm_lines(ts).len() <= line_runs(ts.take(operand_start(ts))).len(),
{
    let rs = rendered_runs(line_runs(ts.take(operand_start(ts))));
    let pred = |l: Seq<char>| l.len() > 0;
    assert forall|i: int| 0 <= i < asm_lines(ts).len() implies #[trigger] asm_lines(ts)[i].len()
        > 0 by {
        rs.lemma_filter_pred(pred, i);
    }
    rs.lemma_filter_len(pred);
}

/// A word made of ASCII letters, digits and underscores (the shape of an
/// identifier's assembler spelling).
pub open spec fn is_word(s: Seq<char>) -> bool {
    &&& s.len() > 0
    &&& forall|j: int|
        0 <= j < s.len() ==> {
            let c = #[trigger] s[j];
            ('a' <= c && c <= 'z') || ('A' <= c && c <= 'Z') || ('0' <= c && c <= '9') || c == '_'
        }
}

/// An identifier token.
pub open spec fn ident(s: String, line: usize) -> Token {
    Token { kind: TokenKind::Ident(s), line }
}

/// A literal token.
pub open spec fn literal(s: String, line: usize) -> Token {
    Token { kind: TokenKind::Literal(s), line }
}

/// A punctuation token.
pub open spec fn punct(c: char, line: usize) -> Token {
    Token { kind: TokenKind::Punct(c), line }
}

/// No mnemonic is validated: a line holding one identifier is emitted as that
/// identifier (a raw identifier without its `r#`).
pub proof fn law_an_identifier_is_emitted_as_written(name: String, line: usize)
    requires
        is_word(asm_name(name@)),
    ensures
        instruction_text(seq![ident(name, line)]) == asm_name(name@),
{
    let ts = seq![ident(name, line)];
    assert(parts_from(ts, 1) =~= Seq::<Seq<char>>::empty());
    assert(parts_from(ts, 0) =~= seq![asm_name(name@)]);
    assert(joined_prefix(parts_from(ts, 0), 0) =~= Seq::<char>::empty());
    let m = asm_name(name@);
    assert(m != seq![',']) by {
        assert(m[0] != ',');
    }
    assert(m != seq![':']) by {
        assert(m[0] != ':');
    }
    assert(joined(parts_from(ts, 0)) =~= asm_name(name@));
}

/// A signed offset is glued to its sign: `ja +5` stays `ja +5`.
pub proof fn law_signed_offset_is_glued(
    mnemonic: String,
    sign: char,
    offset: String,
    line: usize,
)
    requires
        is_word(asm_name(mnemonic@)),
        sign == '+' || sign == '-',
    ensures
        instruction_text(seq![ident(mnemonic, line), punct(sign, line), literal(offset, line)])
            == asm_name(mnemonic@) + seq![' ', sign] + offset@,
{
    let ts = seq![ident(mnemonic, line), punct(sign, line), literal(offset, line)];
    let m = asm_name(mnemonic@);
    assert(parts_from(ts, 3) =~= Seq::<Seq<char>>::empty());
    assert(part_at(ts, 1) == (seq![sign] + offset@, 2int));
    assert(parts_from(ts, 1) =~= seq![seq![sign] + offset@]);
    let ps = parts_from(ts, 0);
    assert(ps =~= seq![m, seq![sign] + offset@]);
    assert(m != seq![',']) by {
        assert(m[0] != ',');
    }
    assert(m != seq![':']) by {
        assert(m[0] != ':');
    }
    assert(m[0] != '[' && m[0] != '{' && m[0] != '(');
    assert(joined_prefix(ps, 1) =~= m) by {
        assert(joined_prefix(ps, 0) =~= Seq::<char>::empty());
    }
    assert((seq![sign] + offset@)[0] == sign);
    assert(rendered_part(ps, 1) =~= seq![' ', sign] + offset@);
    assert(joined(ps) =~= m + seq![' ', sign] + offset@);
}

/// A word is none of the parts that the joiner treats specially.
proof fn lemma_word_is_plain(m: Seq<char>)
    requires
        is_word(m),
    ensures
        m != seq![','],
        m != seq![':'],
        m[0] != '[' && m[0] != '{' && m[0] != '(',
        m[0] != '+' && m[0] != '-',
{
    assert(m[0] != ',');
    assert(m[0] != ':');
}

/// The text of a token that is a word: an identifier's assembler spelling or
/// a literal as written.
pub open spec fn word_of(t: Token) -> Seq<char> {
    match t.kind {
        TokenKind::Ident(s) => asm_name(s@),
        TokenKind::Literal(s) => s@,
        _ => seq![],
    }
}

/// `t` is an identifier or a literal whose text is a word.
pub open spec fn is_word_token(t: Token) -> bool {
    (t.kind is Ident || t.kind is Literal) && is_word(word_of(t))
}

/// Registers and immediates are separated by `", "`: `mov64 r0, 1` stays
/// `mov64 r0, 1`.
pub proof fn law_operands_are_comma_separated(
    mnemonic: String,
    first: String,
    second: Token,
    line: usize,
)
    requires
        is_word(asm_name(mnemonic@)),
        is_word(asm_name(first@)),
        is_word_token(second),
    ensures
        instruction_text(seq![ident(mnemonic, line), ident(first, line), punct(',', line), second])
            == asm_name(mnemonic@) + seq![' '] + asm_name(first@) + seq![',', ' '] + word_of(second),
{
    let ts = seq![ident(mnemonic, line), ident(first, line), punct(',', line), second];
    let (m, a, b) = (asm_name(mnemonic@), asm_name(first@), word_of(second));
    lemma_word_is_plain(m);
    lemma_word_is_plain(a);
    lemma_word_is_plain(b);
    assert(parts_from(ts, 4) =~= Seq::<Seq<char>>::empty());
    assert(parts_from(ts, 3) =~= seq![b]);
    assert(parts_from(ts, 2) =~= seq![seq![','], b]);
    assert(parts_from(ts, 1) =~= seq![a, seq![','], b]);
    let ps = parts_from(ts, 0);
    assert(ps =~= seq![m, a, seq![','], b]);
    assert(joined_prefix(ps, 0) =~= Seq::<char>::empty());
    assert(joined_prefix(ps, 1) =~= m);
    assert(joined_prefix(ps, 2) =~= m + seq![' '] + a);
    assert(joined_prefix(ps, 3) =~= m + seq![' '] + a + seq![',', ' ']);
    assert(joined(ps) =~= m + seq![' '] + a + seq![',', ' '] + b);
}

/// Words joined with one space between neighbours.
pub open spec fn spaced(ws: Seq<Seq<char>>) -> Seq<char>
    decreases ws.len(),
{
    if ws.len() == 0 {
        seq![]
    } else if ws.len() == 1 {
        ws[0]
    } else {
        spaced(ws.drop_last()) + seq![' '] + ws.last()
    }
}

proof fn lemma_word_parts(ts: Seq<Token>, i: int)
    requires
        0 <= i <= ts.len(),
        forall|j: int| 0 <= j < ts.len() ==> #[trigger] is_word_token(ts[j]),
    ensures
        parts_from(ts, i) == ts.skip(i).map_values(|t: Token| word_of(t)),
    decreases ts.len() - i,
{
    if i < ts.len() {
        lemma_word_parts(ts, i + 1);
        assert(is_word_token(ts[i]));
        assert(parts_from(ts, i) =~= ts.skip(i).map_values(|t: Token| word_of(t)));
    } else {
        assert(parts_from(ts, i) =~= ts.skip(i).map_values(|t: Token| word_of(t)));
    }
}

proof fn lemma_words_joined(ws: Seq<Seq<char>>, n: int)
    requires
        0 <= n <= ws.len(),
        forall|j: int| 0 <= j < ws.len() ==> is_word(#[trigger] ws[j]),
    ensures
        joined_prefix(ws, n) == spaced(ws.take(n)),
    decreases n,
{
    if n == 0 {
        assert(ws.take(0) =~= Seq::<Seq<char>>::empty());
    } else {
        lemma_words_joined(ws, n - 1);
        lemma_word_is_plain(ws[n - 1]);
        assert(ws.take(n).drop_last() =~= ws.take(n - 1));
        if n == 1 {
            assert(joined_prefix(ws, 0) =~= Seq::<char>::empty());
            assert(joined_prefix(ws, 1) =~= ws[0]);
        } else {
            lemma_word_is_plain(ws[n - 2]);
            assert(rendered_part(ws, n - 1) =~= seq![' '] + ws[n - 1]);
            assert(joined_prefix(ws, n) =~= spaced(ws.take(n - 1)) + seq![' '] + ws[n - 1]);
        }
    }
}

/// A line of words (identifiers and literals, with no punctuation) is written
/// with exactly one space between neighbouring words: `call cal_a` stays
/// `call cal_a`, `syscall sol_log_` stays `syscall sol_log_`.
pub proof fn law_words_are_separated_by_one_space(ts: Seq<Token>)
    requires
        forall|j: int| 0 <= j < ts.len() ==> #[trigger] is_word_token(ts[j]),
    ensures
        instruction_text(ts) == spaced(ts.map_values(|t: Token| word_of(t))),
{
    lemma_word_parts(ts, 0);
    assert(ts.skip(0) =~= ts);
    let ws = ts.map_values(|t: Token| word_of(t));
    assert forall|j: int| 0 <= j < ws.len() implies is_word(#[trigger] ws[j]) by {
        assert(is_word_token(ts[j]));
    }
    lemma_words_joined(ws, ws.len() as int);
    assert(ws.take(ws.len() as int) =~= ws);
}

/// A memory operand is written without spaces: `ldxdw r1, [r2 - 8]` becomes
/// `ldxdw r1, [r2-8]`.
#[verifier::spinoff_prover]
#[verifier::rlimit(40)]
pub proof fn law_memory_operand_has_no_spaces(
    mnemonic: String,
    dst: String,
    base: String,
    sign: char,
    offset: String,
    inner: Vec<Token>,
    line: usize,
)
    requires
        is_word(asm_name(mnemonic@)),
        is_word(asm_name(dst@)),
        sign == '+' || sign == '-',
        inner@ == seq![ident(base, line), punct(sign, line), literal(offset, line)],
    ensures
        instruction_text(
            seq![
                ident(mnemonic, line),
                ident(dst, line),
                punct(',', line),
                Token { kind: TokenKind::Group(Delimiter::Bracket, inner), line },
            ],
        ) == asm_name(mnemonic@) + seq![' '] + asm_name(dst@) + seq![',', ' ', '['] + asm_name(
            base@,
        ) + seq![sign] + offset@ + seq![']'],
{
    let ts = seq![
        ident(mnemonic, line),
        ident(dst, line),
        punct(',', line),
        Token { kind: TokenKind::Group(Delimiter::Bracket, inner), line },
    ];
    let (m, a) = (asm_name(mnemonic@), asm_name(dst@));
    lemma_word_is_plain(m);
    lemma_word_is_plain(a);
    let is = inner@;
    assert(operand_text(is, 3) =~= Seq::<char>::empty());
    assert(operand_text(is, 1) =~= seq![sign] + offset@);
    assert(operand_text(is, 0) =~= asm_name(base@) + seq![sign] + offset@);
    let g = group_text(Delimiter::Bracket, operand_text(is, 0));
    assert(g =~= seq!['['] + asm_name(base@) + seq![sign] + offset@ + seq![']']);
    assert(parts_from(ts, 4) =~= Seq::<Seq<char>>::empty());
    assert(parts_from(ts, 3) =~= seq![g]);
    assert(parts_from(ts, 2) =~= seq![seq![','], g]);
    assert(parts_from(ts, 1) =~= seq![a, seq![','], g]);
    let ps = parts_from(ts, 0);
    assert(ps =~= seq![m, a, seq![','], g]);
    assert(g[0] == '[');
    assert(g != seq![','] && g != seq![':']);
    assert(joined_prefix(ps, 0) =~= Seq::<char>::empty());
    assert(joined_prefix(ps, 1) =~= m);
    assert(joined_prefix(ps, 2) =~= m + seq![' '] + a);
    assert(joined_prefix(ps, 3) =~= m + seq![' '] + a + seq![',', ' ']);
    assert(joined(ps) =~= m + seq![' '] + a + seq![',', ' '] + g);
}

/// A label definition has no space before its colon (`cal_a:`), and an
/// instruction after it on the same line is separated by one space
/// (`cal_a: exit`).
pub proof fn law_label_colon_is_glued(label: String, insn: String, line: usize)
    requires
        is_word(asm_name(label@)),
        is_word(asm_name(insn@)),
    ensures
        instruction_text(seq![ident(label, line), punct(':', line)]) == asm_name(label@) + seq![
            ':',
        ],
        instruction_text(seq![ident(label, line), punct(':', line), ident(insn, line)])
            == asm_name(label@) + seq![':', ' '] + asm_name(insn@),
{
    let (l, m) = (asm_name(label@), asm_name(insn@));
    lemma_word_is_plain(l);
    lemma_word_is_plain(m);
    assert(seq![':'] != seq![',']) by {
        assert(seq![':'][0] != seq![','][0]);
    }
    let ts = seq![ident(label, line), punct(':', line)];
    assert(parts_from(ts, 2) =~= Seq::<Seq<char>>::empty());
    assert(parts_from(ts, 1) =~= seq![seq![':']]);
    let ps = parts_from(ts, 0);
    assert(ps =~= seq![l, seq![':']]);
    assert(joined_prefix(ps, 0) =~= Seq::<char>::empty());
    assert(joined_prefix(ps, 1) =~= l);
    assert(rendered_part(ps, 1) =~= seq![':']);
    assert(joined_prefix(ps, 2) =~= l + seq![':']);
    assert(joined(ps) =~= l + seq![':']);
    let ts2 = seq![ident(label, line), punct(':', line), ident(insn, line)];
    assert(parts_from(ts2, 3) =~= Seq::<Seq<char>>::empty());
    assert(parts_from(ts2, 2) =~= seq![m]);
    assert(parts_from(ts2, 1) =~= seq![seq![':'], m]);
    let ps2 = parts_from(ts2, 0);
    assert(ps2 =~= seq![l, seq![':'], m]);
    assert(joined_prefix(ps2, 0) =~= Seq::<char>::empty());
    assert(joined_prefix(ps2, 1) =~= l);
    assert(joined_prefix(ps2, 2) =~= l + seq![':']);
    assert(joined(ps2) =~= l + seq![':', ' '] + m);
}

/// A directive or symbol-type prefix is glued to the word after it:
/// `.globl entrypoint` stays `.globl entrypoint`, `@function` stays whole.
pub proof fn law_directive_prefix_is_glued(prefix: char, word: String, arg: String, line: usize)
    requires
        prefix == '.' || prefix == '@',
        is_word(asm_name(word@)),
        is_word(asm_name(arg@)),
    ensures
        instruction_text(seq![punct(prefix, line), ident(word, line), ident(arg, line)]) == seq![
            prefix,
        ] + asm_name(word@) + seq![' '] + asm_name(arg@),
{
    let (w, a) = (asm_name(word@), asm_name(arg@));
    lemma_word_is_plain(w);
    lemma_word_is_plain(a);
    let ts = seq![punct(prefix, line), ident(word, line), ident(arg, line)];
    let d = seq![prefix] + w;
    assert(d[0] == prefix);
    assert(d != seq![','] && d != seq![':']) by {
        assert(d.len() > 1);
    }
    assert(parts_from(ts, 3) =~= Seq::<Seq<char>>::empty());
    assert(parts_from(ts, 2) =~= seq![a]);
    assert(part_at(ts, 0) == (d, 2int));
    let ps = parts_from(ts, 0);
    assert(ps =~= seq![d, a]);
    assert(joined_prefix(ps, 0) =~= Seq::<char>::empty());
    assert(joined_prefix(ps, 1) =~= d);
    assert(joined(ps) =~= d + seq![' '] + a);
}

/// BPF pseudo-C such as `r3 = le16 r3` has the shape `name =` of a named
/// operand, but a line that begins with a register and `=` never starts the
/// operand list: it stays an instruction.
pub proof fn law_register_assignment_is_an_instruction(ts: Seq<Token>, i: int)
    requires
        0 <= i < ts.len(),
        ts[i].kind is Ident,
        is_plain_register(ts[i].kind->Ident_0@),
    ensures
        !starts_operands(ts, i),
{
    let s = ts[i].kind->Ident_0@;
    let n = asm_name(s);
    if operand_keyword_token(ts[i]) {
        assert(n[0] == 'r' || n[0] == 'w');
        assert(s[0] == 'i' || s[0] == 'o' || s[0] == 'l' || s[0] == 'c');
        assert(n == s);
    }
}

/// `s` is `r` or `w` followed by one or more ASCII digits.
pub open spec fn is_register_spelling(s: Seq<char>) -> bool {
    &&& s.len() >= 2
    &&& (s[0] == 'r' || s[0] == 'w')
    &&& forall|j: int| 1 <= j < s.len() ==> '0' <= #[trigger] s[j] && s[j] <= '9'
}

/// Every register name `r0`, `r10`, `w3`, ... (any digits after `r` or `w`) is
/// recognised as a plain register, and a source line that begins with it and
/// `=` (pseudo-C such as `r0 = 0`) never starts the operand list.
pub proof fn law_every_register_name_is_a_register(ts: Seq<Token>, i: int, name: Seq<char>)
    requires
        is_register_spelling(name),
    ensures
        is_plain_register(name),
        0 <= i < ts.len() && ts[i].kind is Ident && ts[i].kind->Ident_0@ == name
            ==> !starts_operands(ts, i),
{
    assert(name[1] != '#');
    assert(asm_name(name) == name);
    assert forall|j: int| 1 <= j < name.len() implies crate::classify::is_digit(
        #[trigger] name[j],
    ) by {
        assert('0' <= name[j] && name[j] <= '9');
    }
    if 0 <= i < ts.len() && ts[i].kind is Ident && ts[i].kind->Ident_0@ == name {
        law_register_assignment_is_an_instruction(ts, i);
    }
}

/// A literal is emitted exactly as written, quotes, commas and all: after a
/// mnemonic it appears verbatim, separated by one space
/// (`.ascii "Hello, Solana!"`).
pub proof fn law_literal_is_emitted_as_written(mnemonic: String, lit: String, line: usize)
    requires
        is_word(asm_name(mnemonic@)),
        lit@ != seq![','],
        lit@ != seq![':'],
    ensures
        instruction_text(seq![ident(mnemonic, line), literal(lit, line)]) == asm_name(mnemonic@)
            + seq![' '] + lit@,
{
    let m = asm_name(mnemonic@);
    lemma_word_is_plain(m);
    let ts = seq![ident(mnemonic, line), literal(lit, line)];
    assert(parts_from(ts, 2) =~= Seq::<Seq<char>>::empty());
    assert(parts_from(ts, 1) =~= seq![lit@]);
    let ps = parts_from(ts, 0);
    assert(ps =~= seq![m, lit@]);
    assert(joined_prefix(ps, 0) =~= Seq::<char>::empty());
    assert(joined_prefix(ps, 1) =~= m);
    assert(rendered_part(ps, 1) =~= seq![' '] + lit@);
    assert(joined(ps) =~= m + seq![' '] + lit@);
}

/// A bracket, brace or parenthesis group is always written with both of its
/// delimiters around its operand text, however many tokens it holds: an empty
/// placeholder `{}` stays `{}`.
pub proof fn law_group_keeps_its_delimiters(
    mnemonic: String,
    d: Delimiter,
    inner: Vec<Token>,
    line: usize,
)
    requires
        is_word(asm_name(mnemonic@)),
        d != Delimiter::Invisible,
    ensures
        d == Delimiter::Brace ==> instruction_text(
            seq![ident(mnemonic, line), Token { kind: TokenKind::Group(d, inner), line }],
        ) == asm_name(mnemonic@) + seq![' ', '{'] + operand_text(inner@, 0) + seq!['}'],
        d == Delimiter::Bracket ==> instruction_text(
            seq![ident(mnemonic, line), Token { kind: TokenKind::Group(d, inner), line }],
        ) == asm_name(mnemonic@) + seq![' ', '['] + operand_text(inner@, 0) + seq![']'],
        d == Delimiter::Parenthesis ==> instruction_text(
            seq![ident(mnemonic, line), Token { kind: TokenKind::Group(d, inner), line }],
        ) == asm_name(mnemonic@) + seq![' ', '('] + operand_text(inner@, 0) + seq![')'],
        inner@.len() == 0 ==> operand_text(inner@, 0) == Seq::<char>::empty(),
{
    let m = asm_name(mnemonic@);
    lemma_word_is_plain(m);
    let ts = seq![ident(mnemonic, line), Token { kind: TokenKind::Group(d, inner), line }];
    let g = group_text(d, operand_text(inner@, 0));
    assert(g.len() >= 2 && (g[0] == '[' || g[0] == '{' || g[0] == '('));
    assert(g != seq![','] && g != seq![':']) by {
        assert(g[0] != ',' && g[0] != ':');
    }
    assert(parts_from(ts, 2) =~= Seq::<Seq<char>>::empty());
    assert(parts_from(ts, 1) =~= seq![g]);
    let ps = parts_from(ts, 0);
    assert(ps =~= seq![m, g]);
    assert(joined_prefix(ps, 0) =~= Seq::<char>::empty());
    assert(joined_prefix(ps, 1) =~= m);
    assert(rendered_part(ps, 1) =~= seq![' '] + g);
    assert(joined(ps) =~= m + seq![' '] + g);
}

/// Total length of a list of lines.
pub open spec fn total_len(lines: Seq<Seq<char>>) -> int
    decreases lines.len(),
{
    if lines.len() == 0 {
        0
    } else {
        total_len(lines.drop_last()) + lines.last().len()
    }
}

/// Joining keeps every line whole and adds exactly one `'\n'` between
/// neighbours: joining two non-empty lists is joining each and putting one
/// newline between them, and the joined text of `n > 0` lines is as long as
/// the lines together plus `n - 1`.
pub proof fn law_lines_are_joined_by_single_newlines(a: Seq<Seq<char>>, b: Seq<Seq<char>>)
    ensures
        a.len() > 0 && b.len() > 0 ==> newline_joined(a + b) == newline_joined(a) + seq!['\n']
            + newline_joined(b),
        a.len() > 0 ==> newline_joined(a).len() == total_len(a) + a.len() - 1,
        a.len() == 1 ==> newline_joined(a) == a[0],
    decreases b.len(),
{
    if a.len() > 0 && b.len() > 0 {
        if b.len() == 1 {
            assert((a + b).drop_last() =~= a);
        } else {
            law_lines_are_joined_by_single_newlines(a, b.drop_last());
            assert((a + b).drop_last() =~= a + b.drop_last());
            assert(newline_joined(a + b) =~= newline_joined(a) + seq!['\n'] + newline_joined(b));
        }
    }
    if a.len() > 0 {
        lemma_joined_length(a);
    }
}

proof fn lemma_joined_length(a: Seq<Seq<char>>)
    requires
        a.len() > 0,
    ensures
        newline_joined(a).len() == total_len(a) + a.len() - 1,
    decreases a.len(),
{
    if a.len() > 1 {
        lemma_joined_length(a.drop_last());
    } else {
        assert(a.drop_last() =~= Seq::<Seq<char>>::empty());
        assert(total_len(a.drop_last()) == 0);
        assert(a.last() == a[0]);
    }
}

/// How many of the source lines have a non-empty rendering.
pub open spec fn nonempty_rendering_count(runs: Seq<Seq<Token>>) -> int
    decreases runs.len(),
{
    if runs.len() == 0 {
        0
    } else {
        nonempty_rendering_count(runs.drop_last()) + if instruction_text(runs.last()).len() > 0 {
            1int
        } else {
            0int
        }
    }
}

proof fn lemma_kept_count(runs: Seq<Seq<Token>>)
    ensures
        keep_nonempty(rendered_runs(runs)).len() == nonempty_rendering_count(runs),
    decreases runs.len(),
{
    if runs.len() > 0 {
        lemma_kept_count(runs.drop_last());
        let rr = rendered_runs(runs.drop_last());
        assert(rendered_runs(runs) =~= rr.push(instruction_text(runs.last())));
        rr.lemma_filter_len_push(|l: Seq<char>| l.len() > 0, instruction_text(runs.last()));
    } else {
        let rr = rendered_runs(runs);
        rr.lemma_filter_len(|l: Seq<char>| l.len() > 0);
    }
}

/// Only empty lines are dropped: every source line of the instructions whose
/// rendering is non-empty is among the assembler lines, every assembler line
/// is the rendering of one of those source lines, and there are exactly as
/// many assembler lines as source lines with a non-empty rendering.
pub proof fn law_only_empty_lines_are_dropped(ts: Seq<Token>)
    ensures
        forall|j: int|
            0 <= j < line_runs(ts.take(operand_start(ts))).len() && instruction_text(
                #[trigger] line_runs(ts.take(operand_start(ts)))[j],
            ).len() > 0 ==> asm_lines(ts).contains(
                instruction_text(line_runs(ts.take(operand_start(ts)))[j]),
            ),
        forall|i: int|
            0 <= i < asm_lines(ts).len() ==> exists|j: int|
                0 <= j < line_runs(ts.take(operand_start(ts))).len() && #[trigger] asm_lines(
                    ts,
                )[i] == instruction_text(line_runs(ts.take(operand_start(ts)))[j]),
        asm_lines(ts).len() == nonempty_rendering_count(line_runs(ts.take(operand_start(ts)))),
{
    let runs = line_runs(ts.take(operand_start(ts)));
    let rr = rendered_runs(runs);
    let pred = |l: Seq<char>| l.len() > 0;
    assert forall|j: int|
        0 <= j < runs.len() && instruction_text(#[trigger] runs[j]).len() > 0 implies asm_lines(
        ts,
    ).contains(instruction_text(runs[j])) by {
        assert(rr[j] == instruction_text(runs[j]));
        rr.lemma_filter_contains(pred, j);
    }
    assert forall|i: int| 0 <= i < asm_lines(ts).len() implies exists|j: int|
        0 <= j < runs.len() && #[trigger] asm_lines(ts)[i] == instruction_text(runs[j]) by {
        let x = asm_lines(ts)[i];
        assert(rr.filter(pred).contains(x));
        rr.lemma_filter_contains_rev(pred, x);
        let k = choose|k: int| 0 <= k < rr.len() && rr[k] == x;
        assert(rr[k] == instruction_text(runs[k]));
    }
    lemma_kept_count(runs);
}

/// A raw identifier `r#w` is spelled `w`; any other identifier is spelled as
/// written.
pub proof fn law_raw_prefix_is_dropped(w: Seq<char>, s: Seq<char>)
    ensures
        asm_name(seq!['r', '#'] + w) == w,
        !(s.len() >= 2 && s[0] == 'r' && s[1] == '#') ==> asm_name(s) == s,
{
    assert((seq!['r', '#'] + w).skip(2) =~= w);
}

/// `s` spells one of the `asm!` operand keywords.
pub open spec fn spells_operand_keyword(s: Seq<char>) -> bool {
    ||| s =~= seq!['i', 'n']
    ||| s =~= seq!['o', 'u', 't']
    ||| s =~= seq!['i', 'n', 'o', 'u', 't']
    ||| s =~= seq!['l', 'a', 't', 'e', 'o', 'u', 't']
    ||| s =~= seq!['i', 'n', 'l', 'a', 't', 'e', 'o', 'u', 't']
    ||| s =~= seq!['c', 'o', 'n', 's', 't']
    ||| s =~= seq!['s', 'y', 'm']
    ||| s =~= seq!['o', 'p', 't', 'i', 'o', 'n', 's']
    ||| s =~= seq!['c', 'l', 'o', 'b', 'b', 'e', 'r', '_', 'a', 'b', 'i']
}

/// The operand list can only begin where a source line begins; a line that
/// begins with an operand keyword (`in`, `out`, `inout`, `lateout`,
/// `inlateout`, `const`, `sym`, `options`, `clobber_abi`) or with
/// `name =` for a name that is not a register begins it at the latest there.
pub proof fn law_operands_begin_only_at_line_starts(ts: Seq<Token>, i: int)
    requires
        0 <= i < ts.len(),
    ensures
        i > 0 && ts[i].line == ts[i - 1].line ==> operand_start(ts) != i,
        (i == 0 || ts[i].line != ts[i - 1].line) && ts[i].kind is Ident && spells_operand_keyword(
            ts[i].kind->Ident_0@,
        ) ==> operand_start(ts) <= i,
        (i == 0 || ts[i].line != ts[i - 1].line) && i + 1 < ts.len() && ts[i].kind is Ident
            && !is_register_spelling(asm_name(ts[i].kind->Ident_0@)) && ts[i + 1].kind is Punct
            && ts[i + 1].kind->Punct_0 == '=' ==> operand_start(ts) <= i,
{
    law_operands_are_the_suffix_from_the_first_operand_line(ts);
    if (i == 0 || ts[i].line != ts[i - 1].line) && ts[i].kind is Ident && spells_operand_keyword(
        ts[i].kind->Ident_0@,
    ) {
        assert(starts_operands(ts, i));
    }
    if (i == 0 || ts[i].line != ts[i - 1].line) && i + 1 < ts.len() && ts[i].kind is Ident
        && !is_register_spelling(asm_name(ts[i].kind->Ident_0@)) && ts[i + 1].kind is Punct
        && ts[i + 1].kind->Punct_0 == '=' {
        let n = asm_name(ts[i].kind->Ident_0@);
        if is_plain_register(ts[i].kind->Ident_0@) {
            assert forall|j: int| 1 <= j < n.len() implies '0' <= #[trigger] n[j] && n[j]
                <= '9' by {
                assert(crate::classify::is_digit(n[j]));
            }
        }
        assert(starts_operands(ts, i));
    }
}

/// `%` is glued to a following `=` (`x %= 3`) and otherwise stands alone
/// (`x % 3`).
pub proof fn law_percent_equals_is_glued(x: String, n: String, line: usize)
    requires
        is_word(asm_name(x@)),
        is_word(n@),
    ensures
        instruction_text(seq![ident(x, line), punct('%', line), punct('=', line), literal(n, line)])
            == asm_name(x@) + seq![' ', '%', '=', ' '] + n@,
        instruction_text(seq![ident(x, line), punct('%', line), literal(n, line)]) == asm_name(x@)
            + seq![' ', '%', ' '] + n@,
{
    let m = asm_name(x@);
    lemma_word_is_plain(m);
    lemma_word_is_plain(n@);
    let pe = seq!['%', '='];
    let pc = seq!['%'];
    assert(pe != seq![','] && pe != seq![':'] && pe[0] == '%');
    assert(pc != seq![','] && pc != seq![':']) by {
        assert(pc[0] != ',' && pc[0] != ':');
    }
    let ts = seq![ident(x, line), punct('%', line), punct('=', line), literal(n, line)];
    assert(parts_from(ts, 4) =~= Seq::<Seq<char>>::empty());
    assert(parts_from(ts, 3) =~= seq![n@]);
    assert(part_at(ts, 1) == (pe, 2int));
    assert(parts_from(ts, 1) =~= seq![pe, n@]);
    let ps = parts_from(ts, 0);
    assert(ps =~= seq![m, pe, n@]);
    assert(joined_prefix(ps, 0) =~= Seq::<char>::empty());
    assert(joined_prefix(ps, 1) =~= m);
    assert(joined_prefix(ps, 2) =~= m + seq![' '] + pe);
    assert(joined(ps) =~= m + seq![' ', '%', '=', ' '] + n@);
    let ts2 = seq![ident(x, line), punct('%', line), literal(n, line)];
    assert(parts_from(ts2, 3) =~= Seq::<Seq<char>>::empty());
    assert(parts_from(ts2, 2) =~= seq![n@]);
    assert(part_at(ts2, 1) == (pc, 1int));
    assert(parts_from(ts2, 1) =~= seq![pc, n@]);
    let ps2 = parts_from(ts2, 0);
    assert(ps2 =~= seq![m, pc, n@]);
    assert(joined_prefix(ps2, 0) =~= Seq::<char>::empty());
    assert(joined_prefix(ps2, 1) =~= m);
    assert(joined_prefix(ps2, 2) =~= m + seq![' '] + pc);
    assert(joined(ps2) =~= m + seq![' ', '%', ' '] + n@);
}

/// Outside an operand, a sign is glued only to a literal: before a name it
/// stands alone (`ja + label`).
pub proof fn law_sign_before_a_name_stands_alone(m: String, sign: char, l: String, line: usize)
    requires
        is_word(asm_name(m@)),
        is_word(asm_name(l@)),
        sign == '+' || sign == '-',
    ensures
        instruction_text(seq![ident(m, line), punct(sign, line), ident(l, line)]) == asm_name(m@)
            + seq![' ', sign, ' '] + asm_name(l@),
{
    let (a, b) = (asm_name(m@), asm_name(l@));
    lemma_word_is_plain(a);
    lemma_word_is_plain(b);
    let ps_sign = seq![sign];
    assert(ps_sign != seq![','] && ps_sign != seq![':']) by {
        assert(ps_sign[0] != ',' && ps_sign[0] != ':');
    }
    let ts = seq![ident(m, line), punct(sign, line), ident(l, line)];
    assert(parts_from(ts, 3) =~= Seq::<Seq<char>>::empty());
    assert(parts_from(ts, 2) =~= seq![b]);
    assert(part_at(ts, 1) == (ps_sign, 1int));
    assert(parts_from(ts, 1) =~= seq![ps_sign, b]);
    let ps = parts_from(ts, 0);
    assert(ps =~= seq![a, ps_sign, b]);
    assert(joined_prefix(ps, 0) =~= Seq::<char>::empty());
    assert(joined_prefix(ps, 1) =~= a);
    assert(joined_prefix(ps, 2) =~= a + seq![' ', sign]);
    assert(joined(ps) =~= a + seq![' ', sign, ' '] + b);
}

/// A word right after a delimited group follows it without a space
/// (`a [b]c`).
pub proof fn law_no_space_after_a_group(m: String, inner: Vec<Token>, x: String, line: usize)
    requires
        is_word(asm_name(m@)),
        is_word(asm_name(x@)),
    ensures
        instruction_text(
            seq![
                ident(m, line),
                Token { kind: TokenKind::Group(Delimiter::Bracket, inner), line },
                ident(x, line),
            ],
        ) == asm_name(m@) + seq![' ', '['] + operand_text(inner@, 0) + seq![']'] + asm_name(x@),
{
    let (a, b) = (asm_name(m@), asm_name(x@));
    lemma_word_is_plain(a);
    lemma_word_is_plain(b);
    let ts = seq![
        ident(m, line),
        Token { kind: TokenKind::Group(Delimiter::Bracket, inner), line },
        ident(x, line),
    ];
    let g = group_text(Delimiter::Bracket, operand_text(inner@, 0));
    assert(g[0] == '[');
    assert(g != seq![','] && g != seq![':']) by {
        assert(g[0] != ',' && g[0] != ':');
    }
    assert(parts_from(ts, 3) =~= Seq::<Seq<char>>::empty());
    assert(parts_from(ts, 2) =~= seq![b]);
    assert(parts_from(ts, 1) =~= seq![g, b]);
    let ps = parts_from(ts, 0);
    assert(ps =~= seq![a, g, b]);
    assert(joined_prefix(ps, 0) =~= Seq::<char>::empty());
    assert(joined_prefix(ps, 1) =~= a);
    assert(joined_prefix(ps, 2) =~= a + seq![' '] + g);
    assert(joined(ps) =~= a + seq![' '] + g + b);
}

/// Inside an operand, a sign is glued to a following name as written
/// (`[r2-off]`), and a nested group contributes only its contents
/// (`[r2 (8)]` gives `r28`).
pub proof fn law_operand_glues_names_and_unwraps_groups(
    base: String,
    sign: char,
    off: String,
    d: Delimiter,
    nested: Vec<Token>,
    n: String,
    line: usize,
)
    requires
        sign == '+' || sign == '-',
        nested@ == seq![literal(n, line)],
    ensures
        operand_text(seq![ident(base, line), punct(sign, line), ident(off, line)], 0) == asm_name(
            base@,
        ) + seq![sign] + off@,
        operand_text(
            seq![ident(base, line), Token { kind: TokenKind::Group(d, nested), line }],
            0,
        ) == asm_name(base@) + n@,
{
    let ts = seq![ident(base, line), punct(sign, line), ident(off, line)];
    assert(operand_text(ts, 3) =~= Seq::<char>::empty());
    assert(operand_text(ts, 1) =~= seq![sign] + off@);
    assert(operand_text(ts, 0) =~= asm_name(base@) + seq![sign] + off@);
    let ts2 = seq![ident(base, line), Token { kind: TokenKind::Group(d, nested), line }];
    assert(operand_text(nested@, 1) =~= Seq::<char>::empty());
    assert(operand_text(nested@, 0) =~= n@);
    assert(operand_text(ts2, 2) =~= Seq::<char>::empty());
    assert(operand_text(ts2, 1) =~= n@);
    assert(operand_text(ts2, 0) =~= asm_name(base@) + n@);
}

/// The views used by the contracts keep order and length: the tokens behind
/// references, the texts of strings and the token lists of groups are read
/// position by position.
pub proof fn law_views_are_positionwise(
    refs: Seq<&Token>,
    strs: Seq<String>,
    groups: Seq<Vec<&Token>>,
)
    ensures
        derefs(refs).len() == refs.len(),
        forall|i: int| 0 <= i < refs.len() ==> #[trigger] derefs(refs)[i] == *refs[i],
        texts(strs).len() == strs.len(),
        forall|i: int| 0 <= i < strs.len() ==> #[trigger] texts(strs)[i] == strs[i]@,
        run_views(groups).len() == groups.len(),
        forall|i: int|
            0 <= i < groups.len() ==> #[trigger] run_views(groups)[i] == derefs(groups[i]@),
{
}

} // verus!
