use vstd::prelude::*;
use crate::render::{asm_name, derefs, ident_to_asm};
use crate::text::text_eq;
use crate::token::{Token, TokenKind};

verus! {

/// The words that begin an `asm!` operand (`in(..)`, `lateout(..)`, `options(..)`, ...).
pub open spec fn is_operand_keyword(s: Seq<char>) -> bool {
    ||| s == seq!['i', 'n']
    ||| s == seq!['o', 'u', 't']
    ||| s == seq!['i', 'n', 'o', 'u', 't']
    ||| s == seq!['l', 'a', 't', 'e', 'o', 'u', 't']
    ||| s == seq!['i', 'n', 'l', 'a', 't', 'e', 'o', 'u', 't']
    ||| s == seq!['c', 'o', 'n', 's', 't']
    ||| s == seq!['s', 'y', 'm']
    ||| s == seq!['o', 'p', 't', 'i', 'o', 'n', 's']
    ||| s == seq!['c', 'l', 'o', 'b', 'b', 'e', 'r', '_', 'a', 'b', 'i']
}

/// `t` is an identifier spelled as an operand keyword.
pub open spec fn operand_keyword_token(t: Token) -> bool {
    t.kind is Ident && is_operand_keyword(t.kind->Ident_0@)
}

/// `c` is one of `0`..`9`.
pub open spec fn is_digit(c: char) -> bool {
    '0' <= c && c <= '9'
}

/// The identifier names a register: `r` or `w` followed by one or more digits
/// (after a raw `r#` prefix is removed).
pub open spec fn is_plain_register(s: Seq<char>) -> bool {
    let n = asm_name(s);
    &&& n.len() >= 2
    &&& (n[0] == 'r' || n[0] == 'w')
    &&& forall|j: int| 1 <= j < n.len() ==> is_digit(#[trigger] n[j])
}

/// `ts[i]` and `ts[i + 1]` read `name =` where `name` is not a register: the
/// shape of a named `asm!` operand (as opposed to pseudo-C such as `r3 = ...`).
pub open spec fn named_operand_start(ts: Seq<Token>, i: int) -> bool {
    &&& 0 <= i
    &&& i + 1 < ts.len()
    &&& ts[i].kind is Ident
    &&& !is_plain_register(ts[i].kind->Ident_0@)
    &&& ts[i + 1].kind is Punct
    &&& ts[i + 1].kind->Punct_0 == '='
}

/// `ts[i]` is the first token of its source line.
pub open spec fn at_line_start(ts: Seq<Token>, i: int) -> bool {
    i == 0 || ts[i].line != ts[i - 1].line
}

/// The operand list begins at `ts[i]`: it opens a source line with an operand
/// keyword or a named operand.
pub open spec fn starts_operands(ts: Seq<Token>, i: int) -> bool {
    at_line_start(ts, i) && (operand_keyword_token(ts[i]) || named_operand_start(ts, i))
}

/// The first index at or after `i` where the operand list begins, or the
/// length of `ts` if it begins nowhere there.
pub open spec fn first_operand_from(ts: Seq<Token>, i: int) -> int
    decreases ts.len() - i,
{
    if i < 0 || i >= ts.len() {
        ts.len() as int
    } else if starts_operands(ts, i) {
        i
    } else {
        first_operand_from(ts, i + 1)
    }
}

/// Where the operand list of an assembly block begins.
pub open spec fn operand_start(ts: Seq<Token>) -> int {
    first_operand_from(ts, 0)
}

/// The operand list begins somewhere between `i` and the end of `ts`.
pub proof fn lemma_first_operand_bounds(ts: Seq<Token>, i: int)
    requires
        0 <= i <= ts.len(),
    ensures
        i <= first_operand_from(ts, i) <= ts.len(),
    decreases ts.len() - i,
{
    if i < ts.len() && !starts_operands(ts, i) {
        lemma_first_operand_bounds(ts, i + 1);
    }
}

/// Whether the text is one of the operand keywords.
fn is_operand_keyword_text(s: &str) -> (r: bool)
    ensures
        r == is_operand_keyword(s@),
{
    proof {
        reveal_strlit("in");
        reveal_strlit("out");
        reveal_strlit("inout");
        reveal_strlit("lateout");
        reveal_strlit("inlateout");
        reveal_strlit("const");
        reveal_strlit("sym");
        reveal_strlit("options");
        reveal_strlit("clobber_abi");
        assert("in"@ =~= seq!['i', 'n']);
        assert("out"@ =~= seq!['o', 'u', 't']);
        assert("inout"@ =~= seq!['i', 'n', 'o', 'u', 't']);
        assert("lateout"@ =~= seq!['l', 'a', 't', 'e', 'o', 'u', 't']);
        assert("inlateout"@ =~= seq!['i', 'n', 'l', 'a', 't', 'e', 'o', 'u', 't']);
        assert("const"@ =~= seq!['c', 'o', 'n', 's', 't']);
        assert("sym"@ =~= seq!['s', 'y', 'm']);
        assert("options"@ =~= seq!['o', 'p', 't', 'i', 'o', 'n', 's']);
        assert("clobber_abi"@ =~= seq!['c', 'l', 'o', 'b', 'b', 'e', 'r', '_', 'a', 'b', 'i']);
    }
    text_eq(s, "in") || text_eq(s, "out") || text_eq(s, "inout") || text_eq(s, "lateout")
        || text_eq(s, "inlateout") || text_eq(s, "const") || text_eq(s, "sym") || text_eq(
        s,
        "options",
    ) || text_eq(s, "clobber_abi")
}

/// Whether the token is an identifier spelled as an `asm!` operand keyword.
pub fn is_asm_operand_keyword(token: &Token) -> (r: bool)
    ensures
        r == operand_keyword_token(*token),
{
    if let TokenKind::Ident(ident) = &token.kind {
        is_operand_keyword_text(ident.as_str())
    } else {
        false
    }
}

/// Whether an identifier names a plain register (`r0`..., `w3`...).
///
/// BPF pseudo-C (`r3 = le16 r3`) has the same `ident =` shape as a named
/// `asm!` operand; only identifiers that are not registers start operands.
pub fn is_bpf_plain_reg_ident(ident: &str) -> (r: bool)
    ensures
        r == is_plain_register(ident@),
{
    let s = ident_to_asm(ident);
    let n = s.as_str().unicode_len();
    if n < 2 {
        return false;
    }
    let first = s.as_str().get_char(0);
    if first != 'r' && first != 'w' {
        return false;
    }
    let mut j: usize = 1;
    while j < n
        invariant
            n == s@.len(),
            s@ == asm_name(ident@),
            1 <= j <= n,
            forall|k: int| 1 <= k < j ==> is_digit(#[trigger] s@[k]),
        decreases n - j,
    {
        let c = s.as_str().get_char(j);
        if !('0' <= c && c <= '9') {
            return false;
        }
        j = j + 1;
    }
    true
}

/// Whether `tokens[start_idx..]` begins with `name =` for a non-register `name`.
pub fn is_named_operand_start(tokens: &[Token], start_idx: usize) -> (r: bool)
    ensures
        r == named_operand_start(tokens@, start_idx as int),
{
    if start_idx >= tokens.len() || tokens.len() - start_idx < 2 {
        return false;
    }
    if let TokenKind::Ident(ident) = &tokens[start_idx].kind {
        if is_bpf_plain_reg_ident(ident.as_str()) {
            return false;
        }
        if let TokenKind::Punct(c) = &tokens[start_idx + 1].kind {
            return *c == '=';
        }
    }
    false
}

/// Splits an assembly block into its instruction tokens and its `asm!` operand
/// tokens. The operands begin at the first token that opens a source line with
/// an operand keyword or a named operand; everything from there on is an
/// operand.
pub fn split_asm_and_operands(tokens: &[Token]) -> (r: (Vec<&Token>, Vec<&Token>))
    ensures
        derefs(r.0@) == tokens@.take(operand_start(tokens@)),
        derefs(r.1@) == tokens@.skip(operand_start(tokens@)),
{
    let ghost ts = tokens@;
    let mut asm_tokens: Vec<&Token> = Vec::new();
    let mut operand_tokens: Vec<&Token> = Vec::new();
    let mut in_operands = false;
    let mut prev_line_num: Option<usize> = None;
    let n = tokens.len();
    let mut i: usize = 0;
    while i < n
        invariant
            n == ts.len(),
            ts == tokens@,
            i <= n,
            !in_operands ==> {
                &&& derefs(asm_tokens@) == ts.take(i as int)
                &&& operand_tokens@.len() == 0
                &&& operand_start(ts) == first_operand_from(ts, i as int)
                &&& (i == 0 <==> prev_line_num is None)
                &&& i > 0 ==> prev_line_num == Some(ts[i - 1].line)
            },
            in_operands ==> {
                &&& asm_tokens@.len() < i
                &&& operand_start(ts) == asm_tokens@.len()
                &&& derefs(asm_tokens@) == ts.take(asm_tokens@.len() as int)
                &&& derefs(operand_tokens@) == ts.subrange(asm_tokens@.len() as int, i as int)
            },
        decreases n - i,
    {
        let token = &tokens[i];
        let ghost at = i as int;
        if in_operands {
            operand_tokens.push(token);
            assert(derefs(operand_tokens@) =~= ts.subrange(asm_tokens@.len() as int, at + 1));
        } else {
            let line_num = token.line;
            let is_new_line = match prev_line_num {
                None => true,
                Some(prev) => line_num != prev,
            };
            assert(is_new_line == at_line_start(ts, at));
            if is_new_line && is_asm_operand_keyword(token) {
                in_operands = true;
                operand_tokens.push(token);
                assert(derefs(operand_tokens@) =~= ts.subrange(at, at + 1));
            } else if is_new_line && is_named_operand_start(tokens, i) {
                in_operands = true;
                operand_tokens.push(token);
                assert(derefs(operand_tokens@) =~= ts.subrange(at, at + 1));
            } else {
                asm_tokens.push(token);
                assert(derefs(asm_tokens@) =~= ts.take(at + 1));
            }
            prev_line_num = Some(line_num);
        }
        i = i + 1;
    }
    if !in_operands {
        assert(derefs(asm_tokens@) =~= ts.take(operand_start(ts)));
        assert(derefs(operand_tokens@) =~= ts.skip(operand_start(ts)));
    } else {
        assert(derefs(operand_tokens@) =~= ts.skip(operand_start(ts)));
    }
    (asm_tokens, operand_tokens)
}

} // verus!
