use crate::error::BelError;
use crate::eval::{eval_in, new_object_map, Bel, BelModel, EVAL_DEPTH_LIMIT};
use crate::object::nil;
use crate::parser::{parse, parse_text};
use vstd::prelude::*;

verus! {

/// A line that the loader passes over: a comment, or a line that starts with
/// a byte-order mark.
pub open spec fn skipped_line(l: Seq<char>) -> bool {
    l.len() > 0 && (l[0] == ';' || l[0] == '\u{feff}')
}

/// The blocks of source lines from line `i` on, where `acc` holds the block
/// read so far: each block is its lines, each followed by a newline, and is
/// ended by an empty line. Lines after the last empty line make no block.
pub open spec fn blocks_from(lines: Seq<Seq<char>>, i: int, acc: Seq<char>) -> Seq<Seq<char>>
    decreases lines.len() - i,
{
    if i < 0 || i >= lines.len() {
        Seq::empty()
    } else if skipped_line(lines[i]) {
        blocks_from(lines, i + 1, acc)
    } else if lines[i].len() == 0 {
        if acc.len() > 0 {
            seq![acc] + blocks_from(lines, i + 1, Seq::empty())
        } else {
            blocks_from(lines, i + 1, acc)
        }
    } else {
        blocks_from(lines, i + 1, acc + lines[i] + "\n"@)
    }
}

/// A block of source that could not be loaded, and why.
#[derive(Debug)]
pub struct LoadError {
    pub block: String,
    pub error: BelError,
}

/// Loading blocks from block `i` on, in state `st`, after `count` objects
/// were evaluated: each block is read, a block that holds no object is passed
/// over, and the object of each other block is evaluated with empty locals,
/// until `limit` objects have been evaluated. The result is the state after
/// it and the number of objects evaluated, or the block that failed.
pub open spec fn load_from(
    st: BelModel,
    blocks: Seq<Seq<char>>,
    i: int,
    limit: Option<nat>,
    count: nat,
) -> (BelModel, Result<nat, (Seq<char>, BelError)>)
    decreases blocks.len() - i,
{
    if i < 0 || i >= blocks.len() {
        (st, Ok(count))
    } else {
        match parse_text(blocks[i]) {
            Err(e) => (st, Err((blocks[i], e))),
            Ok(d) => if d == nil() {
                load_from(st, blocks, i + 1, limit, count)
            } else {
                let (st1, r) = eval_in(st, Map::empty(), d, EVAL_DEPTH_LIMIT as nat);
                match r {
                    Err(e) => (st1, Err((blocks[i], e))),
                    Ok(_) => if limit == Some((count + 1) as nat) {
                        (st1, Ok((count + 1) as nat))
                    } else {
                        load_from(st1, blocks, i + 1, limit, (count + 1) as nat)
                    },
                }
            },
        }
    }
}

pub open spec fn limit_view(limit: Option<usize>) -> Option<nat> {
    match limit {
        Some(n) => Some(n as nat),
        None => None,
    }
}

pub open spec fn load_result_view(r: Result<usize, LoadError>) -> Result<nat, (Seq<char>, BelError)> {
    match r {
        Ok(n) => Ok(n as nat),
        Err(e) => Err((e.block@, e.error)),
    }
}

/// Whether a line is passed over.
fn is_skipped_line(line: &String) -> (r: bool)
    ensures
        r == skipped_line(line@),
{
    let s = line.as_str();
    if s.unicode_len() == 0 {
        false
    } else {
        let c = s.get_char(0);
        c == ';' || c == '\u{feff}'
    }
}

/// Splits source lines into blocks that each end with an empty line.
pub fn split_blocks(lines: &Vec<String>) -> (r: Vec<String>)
    ensures
        r@.map_values(|b: String| b@) == blocks_from(
            lines@.map_values(|l: String| l@),
            0,
            Seq::empty(),
        ),
{
    let ghost ls = lines@.map_values(|l: String| l@);
    let mut blocks: Vec<String> = Vec::new();
    let mut accum = String::new();
    let mut i: usize = 0;
    while i < lines.len()
        invariant
            ls == lines@.map_values(|l: String| l@),
            i <= lines@.len(),
            blocks_from(ls, 0, Seq::empty()) == blocks@.map_values(|b: String| b@) + blocks_from(
                ls,
                i as int,
                accum@,
            ),
        decreases lines@.len() - i,
    {
        let ghost before = blocks@.map_values(|b: String| b@);
        let line = &lines[i];
        assert(ls[i as int] == line@);
        if is_skipped_line(line) {
        } else if line.as_str().unicode_len() == 0 {
            if accum.as_str().unicode_len() > 0 {
                let ghost a = accum@;
                let done = accum;
                blocks.push(done);
                accum = String::new();
                proof {
                    let after = blocks@.map_values(|b: String| b@);
                    assert(after =~= before.push(a));
                    assert(before + (seq![a] + blocks_from(ls, i + 1, Seq::empty())) =~= after
                        + blocks_from(ls, i + 1, Seq::empty()));
                }
            }
        } else {
            accum.append(line.as_str());
            accum.append("\n");
        }
        i = i + 1;
    }
    assert(blocks@.map_values(|b: String| b@) + Seq::<Seq<char>>::empty() =~= blocks@.map_values(
        |b: String| b@,
    ));
    blocks
}

impl Bel {
    /// Reads and evaluates blocks of source in order, with empty locals,
    /// until `limit` objects have been evaluated; a block that holds no
    /// object is passed over. Returns the number of objects evaluated, or the
    /// block that failed to read or to evaluate.
    pub fn load_blocks(&mut self, blocks: &Vec<String>, limit: Option<usize>) -> (r: Result<
        usize,
        LoadError,
    >)
        ensures
            (final(self)@, load_result_view(r)) == load_from(
                old(self)@,
                blocks@.map_values(|b: String| b@),
                0,
                limit_view(limit),
                0,
            ),
    {
        let ghost bs = blocks@.map_values(|b: String| b@);
        let mut count: usize = 0;
        let mut i: usize = 0;
        while i < blocks.len()
            invariant
                bs == blocks@.map_values(|b: String| b@),
                i <= blocks@.len(),
                count <= i,
                load_from(old(self)@, bs, 0, limit_view(limit), 0) == load_from(
                    self@,
                    bs,
                    i as int,
                    limit_view(limit),
                    count as nat,
                ),
            decreases blocks@.len() - i,
        {
            let block = &blocks[i];
            assert(bs[i as int] == block@);
            let exp = match parse(block.as_str()) {
                Ok(exp) => exp,
                Err(e) => {
                    return Err(LoadError { block: block.clone(), error: e });
                },
            };
            if !exp.is_nil() {
                match self.eval(&new_object_map(), &exp) {
                    Ok(_) => {},
                    Err(e) => {
                        return Err(LoadError { block: block.clone(), error: e });
                    },
                }
                count = count + 1;
                match limit {
                    Some(n) => if count == n {
                        return Ok(count);
                    },
                    None => {},
                }
            }
            i = i + 1;
        }
        Ok(count)
    }

    /// Loads source given as its lines: splits them into blocks and loads
    /// those, as `load_blocks` does.
    pub fn load_lines(&mut self, lines: &Vec<String>, limit: Option<usize>) -> (r: Result<
        usize,
        LoadError,
    >)
        ensures
            (final(self)@, load_result_view(r)) == load_from(
                old(self)@,
                blocks_from(lines@.map_values(|l: String| l@), 0, Seq::empty()),
                0,
                limit_view(limit),
                0,
            ),
    {
        let blocks = split_blocks(lines);
        self.load_blocks(&blocks, limit)
    }
}

} // verus!
