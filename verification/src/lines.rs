use vstd::prelude::*;
use crate::render::derefs;
use crate::token::Token;

verus! {

/// Splits `ts` into its source lines: maximal runs of consecutive tokens that
/// start on the same line.
pub open spec fn line_runs(ts: Seq<Token>) -> Seq<Seq<Token>>
    decreases ts.len(),
{
    if ts.len() == 0 {
        seq![]
    } else {
        let runs = line_runs(ts.drop_last());
        if ts.len() >= 2 && ts[ts.len() - 2].line == ts.last().line {
            runs.drop_last().push(runs.last().push(ts.last()))
        } else {
            runs.push(seq![ts.last()])
        }
    }
}

/// The token sequences of a list of token-reference lists.
pub open spec fn run_views(v: Seq<Vec<&Token>>) -> Seq<Seq<Token>> {
    v.map_values(|l: Vec<&Token>| derefs(l@))
}

/// Groups tokens into source lines (see [`line_runs`]).
pub fn group_tokens_by_line<'a>(tokens: &[&'a Token]) -> (r: Vec<Vec<&'a Token>>)
    ensures
        run_views(r@) == line_runs(derefs(tokens@)),
{
    let ghost ts = derefs(tokens@);
    if tokens.len() == 0 {
        let empty: Vec<Vec<&'a Token>> = Vec::new();
        assert(run_views(empty@) =~= line_runs(ts));
        return empty;
    }
    let mut lines: Vec<Vec<&'a Token>> = Vec::new();
    let mut current_line: Vec<&'a Token> = Vec::new();
    let mut prev_line_num: Option<usize> = None;
    let n = tokens.len();
    let mut i: usize = 0;
    while i < n
        invariant
            n == tokens@.len(),
            ts == derefs(tokens@),
            i <= n,
            i == 0 ==> lines@.len() == 0 && current_line@.len() == 0 && prev_line_num is None,
            i > 0 ==> {
                &&& current_line@.len() > 0
                &&& prev_line_num == Some(ts[i - 1].line)
                &&& run_views(lines@).push(derefs(current_line@)) == line_runs(ts.take(i as int))
            },
        decreases n - i,
    {
        let token: &'a Token = tokens[i];
        let ghost at = i as int;
        let ghost old_lines = run_views(lines@);
        let ghost old_cur = derefs(current_line@);
        let line_num = token.line;
        assert(ts.take(at + 1).drop_last() =~= ts.take(at));
        if let Some(prev) = prev_line_num {
            if line_num != prev && current_line.len() != 0 {
                lines.push(current_line);
                current_line = Vec::new();
            }
        }
        current_line.push(token);
        prev_line_num = Some(line_num);
        proof {
            if at == 0 {
                assert(run_views(lines@) =~= Seq::<Seq<Token>>::empty());
                assert(derefs(current_line@) =~= seq![ts[0]]);
                assert(line_runs(ts.take(0)) =~= Seq::<Seq<Token>>::empty());
            } else if ts[at - 1].line == ts[at].line {
                assert(run_views(lines@) =~= old_lines);
                assert(derefs(current_line@) =~= old_cur.push(ts[at]));
                let l = old_lines.push(old_cur);
                assert(l.drop_last() =~= old_lines);
            } else {
                assert(run_views(lines@) =~= old_lines.push(old_cur));
                assert(derefs(current_line@) =~= seq![ts[at]]);
            }
        }
        i = i + 1;
    }
    let ghost before = run_views(lines@);
    assert(ts.take(n as int) =~= ts);
    if current_line.len() != 0 {
        lines.push(current_line);
    }
    assert(run_views(lines@) =~= before.push(derefs(current_line@)));
    lines
}

} // verus!
