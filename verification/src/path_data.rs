//! Path-data parser: from tokens to path commands.
//!
//! Walks the token stream once. A recognized command letter becomes the
//! current command; an unrecognized letter is skipped; a numeric token
//! repeats the current command (the grammar's implicit-repeat rule, with
//! `M` repeating as `L` and `m` as `l`). Each command reads its operands
//! from the stream; if the stream runs out, missing operands read as `0.0`,
//! and a numeric token that fails to parse also reads as `0.0`. The parser
//! never fails.

use vstd::prelude::*;
use crate::float_bits::{parse_f32, spec_parse_f32, F32_ZERO_BITS};
use crate::tokenizer::{Token, TokenView};

verus! {

/// One parsed path command, with operands as `f32` bit patterns and the
/// absolute/relative flag taken from the letter's case.
#[derive(Debug, Clone, Copy, PartialEq, Eq, Structural)]
pub enum PathCommand {
    MoveTo { x: u32, y: u32, relative: bool },
    LineTo { x: u32, y: u32, relative: bool },
    HLineTo { x: u32, relative: bool },
    VLineTo { y: u32, relative: bool },
    CubicTo { x1: u32, y1: u32, x2: u32, y2: u32, x: u32, y: u32, relative: bool },
    SmoothCubicTo { x2: u32, y2: u32, x: u32, y: u32, relative: bool },
    QuadTo { x1: u32, y1: u32, x: u32, y: u32, relative: bool },
    SmoothQuadTo { x: u32, y: u32, relative: bool },
    ArcTo {
        rx: u32,
        ry: u32,
        rotation: u32,
        large_arc: bool,
        sweep: bool,
        x: u32,
        y: u32,
        relative: bool,
    },
    Close,
}

/// A letter that names a path command.
pub open spec fn spec_is_path_command(c: char) -> bool {
    ||| c == 'M' || c == 'm'
    ||| c == 'L' || c == 'l'
    ||| c == 'H' || c == 'h'
    ||| c == 'V' || c == 'v'
    ||| c == 'C' || c == 'c'
    ||| c == 'S' || c == 's'
    ||| c == 'Q' || c == 'q'
    ||| c == 'T' || c == 't'
    ||| c == 'A' || c == 'a'
    ||| c == 'Z' || c == 'z'
}

/// The uppercase form of a command letter; other characters are unchanged.
pub open spec fn spec_upper_cmd(c: char) -> char {
    if c == 'm' {
        'M'
    } else if c == 'l' {
        'L'
    } else if c == 'h' {
        'H'
    } else if c == 'v' {
        'V'
    } else if c == 'c' {
        'C'
    } else if c == 's' {
        'S'
    } else if c == 'q' {
        'Q'
    } else if c == 't' {
        'T'
    } else if c == 'a' {
        'A'
    } else if c == 'z' {
        'Z'
    } else {
        c
    }
}

/// The command that an implicit repeat uses after `c`: bare coordinate
/// pairs after a move are further line targets.
pub open spec fn spec_next_cmd(c: char) -> char {
    if c == 'M' {
        'L'
    } else if c == 'm' {
        'l'
    } else {
        c
    }
}

/// The numeric value a token read as an operand stands for: a numeric
/// token's text parsed as `f32`, `0.0` if it does not parse; a letter
/// token never parses and also reads as `0.0`.
pub open spec fn spec_parse_default(x: Seq<char>) -> u32 {
    match spec_parse_f32(x) {
        Some(b) => b,
        None => F32_ZERO_BITS,
    }
}

/// Operand value of one token.
pub open spec fn tok_num(t: TokenView) -> u32 {
    match t {
        TokenView::Number(x) => spec_parse_default(x),
        TokenView::Command(_) => F32_ZERO_BITS,
    }
}

/// Arc flag value of one token: `1` is true, anything else is false.
pub open spec fn tok_flag(t: TokenView) -> bool {
    match t {
        TokenView::Number(x) => x == seq!['1'],
        TokenView::Command(_) => false,
    }
}

/// Reads one numeric operand at `i`: its value and the next position.
/// Past the end of the stream the operand defaults to `0.0`.
pub open spec fn spec_read_num(toks: Seq<TokenView>, i: int) -> (u32, int) {
    if 0 <= i < toks.len() {
        (tok_num(toks[i]), i + 1)
    } else {
        (F32_ZERO_BITS, i)
    }
}

/// Reads one arc flag at `i`: its value and the next position.
pub open spec fn spec_read_flag(toks: Seq<TokenView>, i: int) -> (bool, int) {
    if 0 <= i < toks.len() {
        (tok_flag(toks[i]), i + 1)
    } else {
        (false, i)
    }
}

/// Builds the command for uppercase letter `u` (not `Z`), reading operands
/// from position `i` on; yields the command and the next position.
pub open spec fn spec_build_cmd(toks: Seq<TokenView>, i: int, u: char, rel: bool) -> (
    PathCommand,
    int,
) {
    if u == 'M' {
        let (x, j1) = spec_read_num(toks, i);
        let (y, j2) = spec_read_num(toks, j1);
        (PathCommand::MoveTo { x, y, relative: rel }, j2)
    } else if u == 'L' {
        let (x, j1) = spec_read_num(toks, i);
        let (y, j2) = spec_read_num(toks, j1);
        (PathCommand::LineTo { x, y, relative: rel }, j2)
    } else if u == 'H' {
        let (x, j1) = spec_read_num(toks, i);
        (PathCommand::HLineTo { x, relative: rel }, j1)
    } else if u == 'V' {
        let (y, j1) = spec_read_num(toks, i);
        (PathCommand::VLineTo { y, relative: rel }, j1)
    } else if u == 'C' {
        let (x1, j1) = spec_read_num(toks, i);
        let (y1, j2) = spec_read_num(toks, j1);
        let (x2, j3) = spec_read_num(toks, j2);
        let (y2, j4) = spec_read_num(toks, j3);
        let (x, j5) = spec_read_num(toks, j4);
        let (y, j6) = spec_read_num(toks, j5);
        (PathCommand::CubicTo { x1, y1, x2, y2, x, y, relative: rel }, j6)
    } else if u == 'S' {
        let (x2, j1) = spec_read_num(toks, i);
        let (y2, j2) = spec_read_num(toks, j1);
        let (x, j3) = spec_read_num(toks, j2);
        let (y, j4) = spec_read_num(toks, j3);
        (PathCommand::SmoothCubicTo { x2, y2, x, y, relative: rel }, j4)
    } else if u == 'Q' {
        let (x1, j1) = spec_read_num(toks, i);
        let (y1, j2) = spec_read_num(toks, j1);
        let (x, j3) = spec_read_num(toks, j2);
        let (y, j4) = spec_read_num(toks, j3);
        (PathCommand::QuadTo { x1, y1, x, y, relative: rel }, j4)
    } else if u == 'T' {
        let (x, j1) = spec_read_num(toks, i);
        let (y, j2) = spec_read_num(toks, j1);
        (PathCommand::SmoothQuadTo { x, y, relative: rel }, j2)
    } else {
        // 'A'
        let (rx, j1) = spec_read_num(toks, i);
        let (ry, j2) = spec_read_num(toks, j1);
        let (rotation, j3) = spec_read_num(toks, j2);
        let (large_arc, j4) = spec_read_flag(toks, j3);
        let (sweep, j5) = spec_read_flag(toks, j4);
        let (x, j6) = spec_read_num(toks, j5);
        let (y, j7) = spec_read_num(toks, j6);
        (PathCommand::ArcTo { rx, ry, rotation, large_arc, sweep, x, y, relative: rel }, j7)
    }
}

/// The commands parsed from position `i` on, with `cmd` the current
/// command letter.
pub open spec fn spec_parse_from(toks: Seq<TokenView>, i: int, cmd: char) -> Seq<PathCommand>
    decreases toks.len() - i,
{
    if i < 0 || i >= toks.len() {
        seq![]
    } else {
        match toks[i] {
            TokenView::Command(c) => {
                if spec_is_path_command(c) {
                    let u = spec_upper_cmd(c);
                    if u == 'Z' {
                        seq![PathCommand::Close] + spec_parse_from(toks, i + 1, c)
                    } else {
                        let (pc, j) = spec_build_cmd(toks, i + 1, u, c != u);
                        seq![pc] + spec_parse_from(toks, j, spec_next_cmd(c))
                    }
                } else {
                    spec_parse_from(toks, i + 1, cmd)
                }
            }
            TokenView::Number(_) => {
                if spec_is_path_command(cmd) && spec_upper_cmd(cmd) != 'Z' {
                    let u = spec_upper_cmd(cmd);
                    let (pc, j) = spec_build_cmd(toks, i, u, cmd != u);
                    seq![pc] + spec_parse_from(toks, j, spec_next_cmd(cmd))
                } else {
                    spec_parse_from(toks, i + 1, cmd)
                }
            }
        }
    }
}

/// The command sequence of a whole token stream. The current command
/// starts as `M`, so a stream that opens with bare numbers reads them as
/// an absolute move.
pub open spec fn spec_parse_path(toks: Seq<TokenView>) -> Seq<PathCommand> {
    spec_parse_from(toks, 0, 'M')
}

/// Runtime test for [`spec_is_path_command`].
pub fn is_path_command(c: char) -> (r: bool)
    ensures
        r == spec_is_path_command(c),
{
    c == 'M' || c == 'm' || c == 'L' || c == 'l' || c == 'H' || c == 'h' || c == 'V' || c == 'v'
        || c == 'C' || c == 'c' || c == 'S' || c == 's' || c == 'Q' || c == 'q' || c == 'T'
        || c == 't' || c == 'A' || c == 'a' || c == 'Z' || c == 'z'
}

/// Runtime counterpart of [`spec_upper_cmd`].
pub fn upper_cmd(c: char) -> (r: char)
    ensures
        r == spec_upper_cmd(c),
{
    if c == 'm' {
        'M'
    } else if c == 'l' {
        'L'
    } else if c == 'h' {
        'H'
    } else if c == 'v' {
        'V'
    } else if c == 'c' {
        'C'
    } else if c == 's' {
        'S'
    } else if c == 'q' {
        'Q'
    } else if c == 't' {
        'T'
    } else if c == 'a' {
        'A'
    } else if c == 'z' {
        'Z'
    } else {
        c
    }
}

/// Parses a numeric token's text, `0.0` if it does not parse.
fn parse_default(s: &String) -> (v: u32)
    ensures
        v == spec_parse_default(s@),
{
    match parse_f32(s.as_str()) {
        Some(b) => b,
        None => F32_ZERO_BITS,
    }
}

/// Reads one numeric operand; see [`spec_read_num`].
fn read_num(tokens: &Vec<Token>, i: usize) -> (r: (u32, usize))
    requires
        i <= tokens@.len(),
    ensures
        (r.0, r.1 as int) == spec_read_num(tokens@.map_values(|t: Token| t@), i as int),
        i <= r.1 <= tokens@.len(),
{
    if i < tokens.len() {
        let v = match &tokens[i] {
            Token::Number(s) => parse_default(s),
            Token::Command(_) => F32_ZERO_BITS,
        };
        (v, i + 1)
    } else {
        (F32_ZERO_BITS, i)
    }
}

/// Reads one arc flag; see [`spec_read_flag`].
fn read_flag(tokens: &Vec<Token>, i: usize) -> (r: (bool, usize))
    requires
        i <= tokens@.len(),
    ensures
        (r.0, r.1 as int) == spec_read_flag(tokens@.map_values(|t: Token| t@), i as int),
        i <= r.1 <= tokens@.len(),
{
    if i < tokens.len() {
        let v = match &tokens[i] {
            Token::Number(s) => {
                let st = s.as_str();
                st.unicode_len() == 1 && st.get_char(0) == '1'
            }
            Token::Command(_) => false,
        };
        proof {
            let t = tokens@.map_values(|t: Token| t@)[i as int];
            if t is Number {
                assert(v == (t->Number_0 =~= seq!['1']));
            }
        }
        (v, i + 1)
    } else {
        (false, i)
    }
}

/// Parses a token stream into path commands; see [`spec_parse_path`].
pub fn parse_svg_path_d(tokens: &Vec<Token>) -> (cmds: Vec<PathCommand>)
    ensures
        cmds@ == spec_parse_path(tokens@.map_values(|t: Token| t@)),
{
    let ghost tv = tokens@.map_values(|t: Token| t@);
    let mut cmds: Vec<PathCommand> = Vec::new();
    let mut cur_cmd: char = 'M';
    let mut i: usize = 0;

    while i < tokens.len()
        invariant
            tv == tokens@.map_values(|t: Token| t@),
            i <= tokens@.len(),
            spec_parse_path(tv) == cmds@ + spec_parse_from(tv, i as int, cur_cmd),
        decreases tokens@.len() - i,
    {
        let ghost i0 = i as int;
        let ghost cmd0 = cur_cmd;
        let ghost cmds0 = cmds@;

        let is_letter_tok = match &tokens[i] {
            Token::Command(_) => true,
            Token::Number(_) => false,
        };
        if is_letter_tok {
            let c = match &tokens[i] {
                Token::Command(c) => *c,
                Token::Number(_) => ' ',
            };
            if is_path_command(c) {
                let u = upper_cmd(c);
                cur_cmd = c;
                i += 1;
                if u == 'Z' {
                    cmds.push(PathCommand::Close);
                    proof {
                        assert(spec_parse_from(tv, i0, cmd0) =~= seq![PathCommand::Close]
                            + spec_parse_from(tv, i as int, cur_cmd));
                        assert(spec_parse_path(tv) =~= cmds@ + spec_parse_from(
                            tv,
                            i as int,
                            cur_cmd,
                        ));
                    }
                } else {
                    let rel = c != u;
                    let (pc, j) = build_cmd(tokens, i, u, rel);
                    cmds.push(pc);
                    i = j;
                    cur_cmd = next_cmd(cur_cmd);
                    proof {
                        assert(spec_parse_from(tv, i0, cmd0) =~= seq![pc] + spec_parse_from(
                            tv,
                            i as int,
                            cur_cmd,
                        ));
                        assert(spec_parse_path(tv) =~= cmds@ + spec_parse_from(
                            tv,
                            i as int,
                            cur_cmd,
                        ));
                    }
                }
            } else {
                i += 1;
                proof {
                    assert(spec_parse_from(tv, i0, cmd0) == spec_parse_from(
                        tv,
                        i as int,
                        cur_cmd,
                    ));
                }
            }
        } else {
            let u = upper_cmd(cur_cmd);
            let recognized = is_path_command(cur_cmd);
            if recognized && u != 'Z' {
                let rel = cur_cmd != u;
                let (pc, j) = build_cmd(tokens, i, u, rel);
                cmds.push(pc);
                i = j;
                cur_cmd = next_cmd(cur_cmd);
                proof {
                    assert(spec_parse_from(tv, i0, cmd0) =~= seq![pc] + spec_parse_from(
                        tv,
                        i as int,
                        cur_cmd,
                    ));
                    assert(spec_parse_path(tv) =~= cmds@ + spec_parse_from(tv, i as int, cur_cmd));
                }
            } else {
                i += 1;
                proof {
                    assert(spec_parse_from(tv, i0, cmd0) == spec_parse_from(
                        tv,
                        i as int,
                        cur_cmd,
                    ));
                }
            }
        }
    }
    proof {
        assert(cmds@ =~= cmds@ + spec_parse_from(tv, i as int, cur_cmd));
    }
    cmds
}

/// Runtime counterpart of [`spec_next_cmd`].
fn next_cmd(c: char) -> (r: char)
    ensures
        r == spec_next_cmd(c),
{
    if c == 'M' {
        'L'
    } else if c == 'm' {
        'l'
    } else {
        c
    }
}

/// Builds one command for uppercase letter `u` (not `Z`), reading operands
/// from position `i`; see [`spec_build_cmd`].
fn build_cmd(tokens: &Vec<Token>, i: usize, u: char, rel: bool) -> (r: (PathCommand, usize))
    requires
        i <= tokens@.len(),
        spec_is_path_command(u),
        u == spec_upper_cmd(u),
        u != 'Z',
    ensures
        (r.0, r.1 as int) == spec_build_cmd(tokens@.map_values(|t: Token| t@), i as int, u, rel),
        i <= r.1 <= tokens@.len(),
{
    if u == 'M' {
        let (x, j1) = read_num(tokens, i);
        let (y, j2) = read_num(tokens, j1);
        (PathCommand::MoveTo { x, y, relative: rel }, j2)
    } else if u == 'L' {
        let (x, j1) = read_num(tokens, i);
        let (y, j2) = read_num(tokens, j1);
        (PathCommand::LineTo { x, y, relative: rel }, j2)
    } else if u == 'H' {
        let (x, j1) = read_num(tokens, i);
        (PathCommand::HLineTo { x, relative: rel }, j1)
    } else if u == 'V' {
        let (y, j1) = read_num(tokens, i);
        (PathCommand::VLineTo { y, relative: rel }, j1)
    } else if u == 'C' {
        let (x1, j1) = read_num(tokens, i);
        let (y1, j2) = read_num(tokens, j1);
        let (x2, j3) = read_num(tokens, j2);
        let (y2, j4) = read_num(tokens, j3);
        let (x, j5) = read_num(tokens, j4);
        let (y, j6) = read_num(tokens, j5);
        (PathCommand::CubicTo { x1, y1, x2, y2, x, y, relative: rel }, j6)
    } else if u == 'S' {
        let (x2, j1) = read_num(tokens, i);
        let (y2, j2) = read_num(tokens, j1);
        let (x, j3) = read_num(tokens, j2);
        let (y, j4) = read_num(tokens, j3);
        (PathCommand::SmoothCubicTo { x2, y2, x, y, relative: rel }, j4)
    } else if u == 'Q' {
        let (x1, j1) = read_num(tokens, i);
        let (y1, j2) = read_num(tokens, j1);
        let (x, j3) = read_num(tokens, j2);
        let (y, j4) = read_num(tokens, j3);
        (PathCommand::QuadTo { x1, y1, x, y, relative: rel }, j4)
    } else if u == 'T' {
        let (x, j1) = read_num(tokens, i);
        let (y, j2) = read_num(tokens, j1);
        (PathCommand::SmoothQuadTo { x, y, relative: rel }, j2)
    } else {
        let (rx, j1) = read_num(tokens, i);
        let (ry, j2) = read_num(tokens, j1);
        let (rotation, j3) = read_num(tokens, j2);
        let (large_arc, j4) = read_flag(tokens, j3);
        let (sweep, j5) = read_flag(tokens, j4);
        let (x, j6) = read_num(tokens, j5);
        let (y, j7) = read_num(tokens, j6);
        (PathCommand::ArcTo { rx, ry, rotation, large_arc, sweep, x, y, relative: rel }, j7)
    }
}

} // verus!
