use vstd::prelude::*;
use crate::classify::{lemma_first_operand_bounds, operand_start, split_asm_and_operands};
use crate::lines::{group_tokens_by_line, line_runs, run_views};
use crate::render::{derefs, format_instruction, instruction_text, texts};
use crate::text::push_char;
use crate::token::Token;

verus! {

/// Each source line rendered as one assembler line.
pub open spec fn rendered_runs(runs: Seq<Seq<Token>>) -> Seq<Seq<char>> {
    runs.map_values(|r: Seq<Token>| instruction_text(r))
}

/// The lines that are not empty.
pub open spec fn keep_nonempty(lines: Seq<Seq<char>>) -> Seq<Seq<char>> {
    lines.filter(|l: Seq<char>| l.len() > 0)
}

/// The assembler lines of a block: the instruction tokens (those before the
/// operands) grouped by source line, each line rendered, empty lines dropped.
pub open spec fn asm_lines(ts: Seq<Token>) -> Seq<Seq<char>> {
    keep_nonempty(rendered_runs(line_runs(ts.take(operand_start(ts)))))
}

/// Lines joined with `'\n'` between them.
pub open spec fn newline_joined(lines: Seq<Seq<char>>) -> Seq<char>
    decreases lines.len(),
{
    if lines.len() == 0 {
        seq![]
    } else if lines.len() == 1 {
        lines[0]
    } else {
        newline_joined(lines.drop_last()) + seq!['\n'] + lines.last()
    }
}

/// The `asm!` template of a block: its assembler lines joined by newlines.
pub open spec fn asm_template(ts: Seq<Token>) -> Seq<char> {
    newline_joined(asm_lines(ts))
}

/// What an assembly macro expands to: the template string, the index of the
/// input token where the pass-through operands begin, and whether the
/// expansion adds `options(raw)`.
pub struct AsmTemplate {
    pub template: String,
    pub operand_start: usize,
    pub options_raw: bool,
}

/// The assembler lines of a block and where its operands begin.
pub fn render_block(tokens: &[Token]) -> (r: (Vec<String>, usize))
    ensures
        texts(r.0@) == asm_lines(tokens@),
        r.1 == operand_start(tokens@),
{
    let (asm_tokens, _operand_tokens) = split_asm_and_operands(tokens);
    proof {
        lemma_first_operand_bounds(tokens@, 0);
        assert(derefs(asm_tokens@).len() == asm_tokens@.len());
    }
    let lines = group_tokens_by_line(asm_tokens.as_slice());
    let ghost runs = run_views(lines@);
    let mut asm_strings: Vec<String> = Vec::new();
    let n = lines.len();
    let mut j: usize = 0;
    while j < n
        invariant
            n == lines@.len(),
            runs == run_views(lines@),
            j <= n,
            texts(asm_strings@) == keep_nonempty(rendered_runs(runs.take(j as int))),
        decreases n - j,
    {
        let s = format_instruction(lines[j].as_slice());
        let ghost before = texts(asm_strings@);
        assert(derefs(lines@[j as int]@) == runs[j as int]);
        proof {
            let rr = rendered_runs(runs.take(j as int));
            assert(rendered_runs(runs.take(j + 1)) =~= rr.push(s@));
            rr.lemma_filter_push(s@, |l: Seq<char>| l.len() > 0);
        }
        if !s.as_str().is_empty() {
            asm_strings.push(s);
            assert(texts(asm_strings@) =~= before.push(s@));
        }
        j = j + 1;
    }
    assert(runs.take(n as int) =~= runs);
    (asm_strings, asm_tokens.len())
}

/// Joins lines with `'\n'` between them.
pub fn join_lines(lines: &[String]) -> (r: String)
    ensures
        r@ == newline_joined(texts(lines@)),
{
    let ghost ls = texts(lines@);
    let mut result = String::new();
    let n = lines.len();
    let mut j: usize = 0;
    while j < n
        invariant
            n == lines@.len(),
            ls == texts(lines@),
            j <= n,
            result@ == newline_joined(ls.take(j as int)),
        decreases n - j,
    {
        assert(ls.take(j + 1).drop_last() =~= ls.take(j as int));
        if j > 0 {
            push_char(&mut result, '\n');
        }
        result.append(lines[j].as_str());
        j = j + 1;
    }
    assert(ls.take(n as int) =~= ls);
    result
}

/// The expansion of an inline assembly block: the template and the
/// pass-through operands, always with `options(raw)`.
pub fn kv_asm(tokens: &[Token]) -> (r: AsmTemplate)
    ensures
        r.template@ == asm_template(tokens@),
        r.operand_start == operand_start(tokens@),
        r.options_raw,
{
    if tokens.len() == 0 {
        return AsmTemplate { template: String::new(), operand_start: 0, options_raw: true };
    }
    let (asm_strings, start) = render_block(tokens);
    let template = join_lines(asm_strings.as_slice());
    AsmTemplate { template, operand_start: start, options_raw: true }
}

/// The expansion of a module-level assembly block: the template and the
/// pass-through operands; `options(raw)` is added only when the block has
/// instructions and no operands.
pub fn kv_global_asm(tokens: &[Token]) -> (r: AsmTemplate)
    ensures
        r.template@ == asm_template(tokens@),
        r.operand_start == operand_start(tokens@),
        r.options_raw == (tokens@.len() > 0 && operand_start(tokens@) == tokens@.len()),
{
    if tokens.len() == 0 {
        return AsmTemplate { template: String::new(), operand_start: 0, options_raw: false };
    }
    let (asm_strings, start) = render_block(tokens);
    let template = join_lines(asm_strings.as_slice());
    let options_raw = start == tokens.len();
    AsmTemplate { template, operand_start: start, options_raw }
}

/// The assembler lines of a block, one string per line.
pub fn kv_asm_array(tokens: &[Token]) -> (r: Vec<String>)
    ensures
        texts(r@) == asm_lines(tokens@),
{
    if tokens.len() == 0 {
        let empty: Vec<String> = Vec::new();
        return empty;
    }
    let (asm_strings, _start) = render_block(tokens);
    asm_strings
}

} // verus!
