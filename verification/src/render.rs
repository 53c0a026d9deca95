use vstd::prelude::*;
use crate::text::{chars_start_with, push_char, starts_with_char, text_eq};
use crate::token::{Delimiter, Token, TokenKind};

verus! {

/// The assembler spelling of an identifier: a raw identifier loses its `r#`.
pub open spec fn asm_name(s: Seq<char>) -> Seq<char> {
    if s.len() >= 2 && s[0] == 'r' && s[1] == '#' {
        s.skip(2)
    } else {
        s
    }
}

/// Text of the tokens `ts[i..]` inside a delimited operand such as `[r1 + 8]`:
/// the tokens are written without spaces, a sign is glued to the literal or
/// identifier after it, and nested groups lose their delimiters.
pub open spec fn operand_text(ts: Seq<Token>, i: int) -> Seq<char>
    decreases ts, ts.len() - i,
{
    if 0 <= i < ts.len() {
        let has_next = i + 1 < ts.len();
        match ts[i].kind {
            TokenKind::Ident(s) => asm_name(s@) + operand_text(ts, i + 1),
            TokenKind::Literal(s) => s@ + operand_text(ts, i + 1),
            TokenKind::Punct(c) => {
                if (c == '+' || c == '-') && has_next && ts[i + 1].kind is Literal {
                    seq![c] + ts[i + 1].kind->Literal_0@ + operand_text(ts, i + 2)
                } else if (c == '+' || c == '-') && has_next && ts[i + 1].kind is Ident {
                    seq![c] + ts[i + 1].kind->Ident_0@ + operand_text(ts, i + 2)
                } else {
                    seq![c] + operand_text(ts, i + 1)
                }
            },
            TokenKind::Group(_, inner) => {
                proof {
                    assert(decreases_to!(ts => ts[i]));
                }
                operand_text(inner@, 0) + operand_text(ts, i + 1)
            },
        }
    } else {
        seq![]
    }
}


/// Spells an identifier for the assembler (`r#mod` becomes `mod`).
pub fn ident_to_asm(ident: &str) -> (r: String)
    ensures
        r@ == asm_name(ident@),
{
    let n = ident.unicode_len();
    if n >= 2 && ident.get_char(0) == 'r' && ident.get_char(1) == '#' {
        ident.substring_char(2, n).to_owned()
    } else {
        ident.to_owned()
    }
}

/// Renders the tokens inside a delimited operand (see [`operand_text`]).
pub fn format_memory_operand(tokens: &[Token]) -> (r: String)
    ensures
        r@ == operand_text(tokens@, 0),
    decreases tokens@,
{
    let mut result = String::new();
    let mut i: usize = 0;
    let n = tokens.len();
    while i < n
        invariant
            n == tokens@.len(),
            i <= n,
            result@ + operand_text(tokens@, i as int) == operand_text(tokens@, 0),
        decreases n - i,
    {
        let ghost before = result@;
        let ghost at = i as int;
        let token = &tokens[i];
        match &token.kind {
            TokenKind::Ident(s) => {
                let name = ident_to_asm(s.as_str());
                result.append(name.as_str());
            },
            TokenKind::Literal(s) => {
                result.append(s.as_str());
            },
            TokenKind::Punct(c) => {
                let ch = *c;
                if ch == '+' || ch == '-' {
                    if i + 1 < n {
                        match &tokens[i + 1].kind {
                            TokenKind::Literal(s) => {
                                push_char(&mut result, ch);
                                result.append(s.as_str());
                                i = i + 1;
                            },
                            TokenKind::Ident(s) => {
                                push_char(&mut result, ch);
                                result.append(s.as_str());
                                i = i + 1;
                            },
                            _ => {
                                push_char(&mut result, ch);
                            },
                        }
                    } else {
                        push_char(&mut result, ch);
                    }
                } else {
                    push_char(&mut result, ch);
                }
            },
            TokenKind::Group(_, inner) => {
                proof {
                    assert(decreases_to!(tokens@ => tokens@[at]));
                }
                let s = format_memory_operand(inner.as_slice());
                result.append(s.as_str());
            },
        }
        i = i + 1;
        assert(result@ + operand_text(tokens@, i as int) =~= before + operand_text(tokens@, at));
    }
    assert(result@ =~= result@ + operand_text(tokens@, i as int));
    result
}


/// The tokens behind a sequence of token references.
pub open spec fn derefs(s: Seq<&Token>) -> Seq<Token> {
    s.map_values(|t: &Token| *t)
}

/// The texts of a sequence of strings.
pub open spec fn texts(s: Seq<String>) -> Seq<Seq<char>> {
    s.map_values(|t: String| t@)
}

/// A group written with its delimiters around the operand text inside it.
pub open spec fn group_text(d: Delimiter, inner: Seq<char>) -> Seq<char> {
    match d {
        Delimiter::Bracket => seq!['['] + inner + seq![']'],
        Delimiter::Brace => seq!['{'] + inner + seq!['}'],
        Delimiter::Parenthesis => seq!['('] + inner + seq![')'],
        Delimiter::Invisible => inner,
    }
}

/// The instruction part that starts at `ts[i]`, and how many tokens it takes.
///
/// A sign is glued to a following literal (`+5`), `%` to a following `=`,
/// and `.` or `@` to a following identifier (`.globl`, `@function`).
pub open spec fn part_at(ts: Seq<Token>, i: int) -> (Seq<char>, int) {
    let has_next = i + 1 < ts.len();
    match ts[i].kind {
        TokenKind::Ident(s) => (asm_name(s@), 1),
        TokenKind::Literal(s) => (s@, 1),
        TokenKind::Punct(c) => {
            if c == ',' {
                (seq![','], 1)
            } else if (c == '+' || c == '-') && has_next && ts[i + 1].kind is Literal {
                (seq![c] + ts[i + 1].kind->Literal_0@, 2)
            } else if c == '%' && has_next && ts[i + 1].kind is Punct && ts[i + 1].kind->Punct_0
                == '=' {
                (seq!['%', '='], 2)
            } else if (c == '.' || c == '@') && has_next && ts[i + 1].kind is Ident {
                (seq![c] + asm_name(ts[i + 1].kind->Ident_0@), 2)
            } else {
                (seq![c], 1)
            }
        },
        TokenKind::Group(d, inner) => (group_text(d, operand_text(inner@, 0)), 1),
    }
}

/// The instruction parts of the tokens `ts[i..]`.
pub open spec fn parts_from(ts: Seq<Token>, i: int) -> Seq<Seq<char>>
    decreases ts.len() - i,
{
    if 0 <= i < ts.len() {
        seq![part_at(ts, i).0] + parts_from(ts, i + part_at(ts, i).1)
    } else {
        seq![]
    }
}

/// `p` begins with an opening delimiter.
pub open spec fn opens_group(p: Seq<char>) -> bool {
    chars_start_with(p, '[') || chars_start_with(p, '{') || chars_start_with(p, '(')
}

/// A part after which the next ordinary part is separated by a space:
/// everything but a comma and a delimited group.
pub open spec fn space_after(p: Seq<char>) -> bool {
    !(p == seq![','] || opens_group(p))
}

/// How `parts[i]` appears in the joined instruction: a comma is written `", "`,
/// a colon follows its label without a space, and any other part is preceded
/// by one space when the part before it asks for one.
pub open spec fn rendered_part(parts: Seq<Seq<char>>, i: int) -> Seq<char> {
    let p = parts[i];
    if p == seq![','] {
        seq![',', ' ']
    } else if p == seq![':'] {
        seq![':']
    } else if i > 0 && space_after(parts[i - 1]) {
        seq![' '] + p
    } else {
        p
    }
}

/// The first `n` parts, each rendered, one after the other.
pub open spec fn joined_prefix(parts: Seq<Seq<char>>, n: int) -> Seq<char>
    decreases n,
{
    if n <= 0 {
        seq![]
    } else {
        joined_prefix(parts, n - 1) + rendered_part(parts, n - 1)
    }
}

/// All parts of an instruction joined into one line.
pub open spec fn joined(parts: Seq<Seq<char>>) -> Seq<char> {
    joined_prefix(parts, parts.len() as int)
}

/// The assembler line for the tokens of one source line.
pub open spec fn instruction_text(ts: Seq<Token>) -> Seq<char> {
    joined(parts_from(ts, 0))
}

/// Joins instruction parts into one line (see [`joined`]).
pub fn join_asm_parts(parts: &[String]) -> (r: String)
    ensures
        r@ == joined(texts(parts@)),
{
    let ghost ps = texts(parts@);
    if parts.len() == 0 {
        return String::new();
    }
    let mut result = String::new();
    let mut prev_needs_space = false;
    let mut i: usize = 0;
    let n = parts.len();
    while i < n
        invariant
            n == parts@.len(),
            ps == texts(parts@),
            i <= n,
            result@ == joined_prefix(ps, i as int),
            prev_needs_space == (i > 0 && space_after(ps[i - 1])),
        decreases n - i,
    {
        let part = parts[i].as_str();
        assert(part@ == ps[i as int]);
        proof {
            reveal_strlit(",");
            reveal_strlit(", ");
            reveal_strlit(":");
            assert(","@ =~= seq![',']);
            assert(", "@ =~= seq![',', ' ']);
            assert(":"@ =~= seq![':']);
        }
        if text_eq(part, ",") {
            assert(part@ =~= seq![',']);
            result.append(", ");
            prev_needs_space = false;
        } else if starts_with_char(part, '[') || starts_with_char(part, '{') || starts_with_char(
            part,
            '(',
        ) {
            if prev_needs_space {
                push_char(&mut result, ' ');
            }
            result.append(part);
            prev_needs_space = false;
        } else if starts_with_char(part, '+') || starts_with_char(part, '-') {
            if prev_needs_space {
                push_char(&mut result, ' ');
            }
            result.append(part);
            prev_needs_space = true;
        } else if text_eq(part, ":") {
            assert(part@ =~= seq![':']);
            push_char(&mut result, ':');
            prev_needs_space = true;
        } else {
            if prev_needs_space {
                push_char(&mut result, ' ');
            }
            result.append(part);
            prev_needs_space = true;
        }
        assert(result@ =~= joined_prefix(ps, i + 1));
        i = i + 1;
    }
    result
}

/// Renders the tokens of one source line as one assembler line.
pub fn format_instruction(tokens: &[&Token]) -> (r: String)
    ensures
        r@ == instruction_text(derefs(tokens@)),
{
    let ghost ts = derefs(tokens@);
    let mut parts: Vec<String> = Vec::new();
    let mut i: usize = 0;
    let n = tokens.len();
    while i < n
        invariant
            n == tokens@.len(),
            ts == derefs(tokens@),
            i <= n,
            texts(parts@) + parts_from(ts, i as int) == parts_from(ts, 0),
        decreases n - i,
    {
        let ghost at = i as int;
        let ghost before = texts(parts@);
        let token: &Token = tokens[i];
        assert(*token == ts[at]);
        let part: String;
        match &token.kind {
            TokenKind::Ident(s) => {
                part = ident_to_asm(s.as_str());
            },
            TokenKind::Literal(s) => {
                part = s.as_str().to_owned();
            },
            TokenKind::Punct(c) => {
                let ch = *c;
                let mut p = String::new();
                push_char(&mut p, ch);
                if ch == ',' {
                } else if ch == '+' || ch == '-' {
                    if i + 1 < n {
                        if let TokenKind::Literal(s) = &tokens[i + 1].kind {
                            p.append(s.as_str());
                            i = i + 1;
                        }
                    }
                } else if ch == '%' {
                    if i + 1 < n {
                        if let TokenKind::Punct(next) = &tokens[i + 1].kind {
                            if *next == '=' {
                                push_char(&mut p, '=');
                                i = i + 1;
                            }
                        }
                    }
                } else if ch == '.' || ch == '@' {
                    if i + 1 < n {
                        if let TokenKind::Ident(s) = &tokens[i + 1].kind {
                            let name = ident_to_asm(s.as_str());
                            p.append(name.as_str());
                            i = i + 1;
                        }
                    }
                }
                part = p;
            },
            TokenKind::Group(d, inner) => {
                let inner_str = format_memory_operand(inner.as_slice());
                let mut p = String::new();
                match d {
                    Delimiter::Bracket => {
                        push_char(&mut p, '[');
                        p.append(inner_str.as_str());
                        push_char(&mut p, ']');
                    },
                    Delimiter::Brace => {
                        push_char(&mut p, '{');
                        p.append(inner_str.as_str());
                        push_char(&mut p, '}');
                    },
                    Delimiter::Parenthesis => {
                        push_char(&mut p, '(');
                        p.append(inner_str.as_str());
                        push_char(&mut p, ')');
                    },
                    Delimiter::Invisible => {
                        p.append(inner_str.as_str());
                    },
                }
                part = p;
            },
        }
        assert(part@ =~= part_at(ts, at).0);
        assert(i + 1 == at + part_at(ts, at).1);
        parts.push(part);
        i = i + 1;
        assert(texts(parts@) =~= before.push(part_at(ts, at).0));
        assert(texts(parts@) + parts_from(ts, i as int) =~= before + parts_from(ts, at));
    }
    assert(texts(parts@) =~= parts_from(ts, 0));
    join_asm_parts(parts.as_slice())
}

} // verus!
