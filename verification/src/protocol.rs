//! The text protocol: one command per line, and the lines to answer with.

use vstd::prelude::*;
use crate::board::{
    empty_cells, startpos_cells, with_cell, Board, BoardView, Cells, Coord, Variant,
};
use crate::eval::{evaluate, material};
use crate::piece::Piece;
use crate::text::{
    contains, decimal, decimal_chars, fields, has_part, lower_form, slice_of, spells, split,
    split_words, texts, to_chars, to_lower, to_text, tokens, trim, trimmed,
};

verus! {

/// The texts of a list of string slices.
pub open spec fn str_views(args: Seq<&str>) -> Seq<Seq<char>> {
    Seq::new(args.len(), |i: int| args[i]@)
}

/// The first `k` of `parts`, with one space between each two.
pub open spec fn joined(parts: Seq<Seq<char>>, k: int) -> Seq<char>
    decreases k,
{
    if k <= 0 {
        Seq::empty()
    } else if k == 1 {
        parts[0]
    } else {
        joined(parts, k - 1) + seq![' '] + parts[k - 1]
    }
}

/// Whether the arguments give the move to black: put together, they hold
/// `stm b`.
pub open spec fn black_to_move(args: Seq<Seq<char>>) -> bool {
    has_part(joined(args, args.len() as int), "stm b"@)
}

/// The squares after one entry of a piece list, `square:piece`, was put on
/// them. An entry of white space alone changes nothing. `None` for an entry
/// without a colon, without a piece letter behind it, with a square's name
/// that does not read, or with a letter that is no piece.
pub open spec fn place_one(cells: Cells, part: Seq<char>) -> Option<Cells> {
    let p = trimmed(part);
    if p.len() == 0 {
        Some(cells)
    } else {
        let f = fields(p, ':', 0);
        if f.len() < 2 || f[1].len() == 0 {
            None
        } else {
            match (Coord::spec_from_notation(f[0]), Piece::spec_from_char(f[1][0])) {
                (Some(c), Some(piece)) => Some(
                    with_cell(cells, c.col as int, c.row as int, Some(piece)),
                ),
                _ => None,
            }
        }
    }
}

/// The squares after the first `k` entries of a piece list, in their order;
/// `None` where one of them is refused.
pub open spec fn place_all(cells: Cells, parts: Seq<Seq<char>>, k: int) -> Option<Cells>
    decreases k,
{
    if k <= 0 {
        Some(cells)
    } else {
        match place_all(cells, parts, k - 1) {
            Some(c) => place_one(c, parts[k - 1]),
            None => None,
        }
    }
}

/// The board that the arguments of a `position` command describe: a
/// variant, then `startpos` or `pieces` with a list of entries parted by
/// semicolons. `None` where there are fewer than two arguments, the variant
/// or the second word is unknown, or an entry of the list is refused.
pub open spec fn spec_parse_position(args: Seq<Seq<char>>) -> Option<BoardView> {
    if args.len() < 2 {
        None
    } else {
        match Variant::spec_from_str(args[0]) {
            None => None,
            Some(v) => {
                let white = !black_to_move(args);
                if args[1] == "startpos"@ {
                    Some(
                        BoardView { variant: v, cells: startpos_cells(v), white_to_play: white },
                    )
                } else if args[1] == "pieces"@ {
                    let list = if args.len() > 2 {
                        args[2]
                    } else {
                        Seq::empty()
                    };
                    let parts = fields(list, ';', 0);
                    match place_all(empty_cells(v), parts, parts.len() as int) {
                        Some(cells) => Some(
                            BoardView { variant: v, cells, white_to_play: white },
                        ),
                        None => None,
                    }
                } else {
                    None
                }
            },
        }
    }
}

/// Once an entry is refused, the whole list is.
pub proof fn lemma_place_fails(cells: Cells, parts: Seq<Seq<char>>, k: int, n: int)
    requires
        0 < k <= n,
        place_all(cells, parts, k) is None,
    ensures
        place_all(cells, parts, n) is None,
    decreases n,
{
    if k < n {
        lemma_place_fails(cells, parts, k, n - 1);
    }
}

/// Puts the words together, with one space between each two.
pub fn join_words(args: &Vec<Vec<char>>) -> (r: Vec<char>)
    ensures
        r@ == joined(texts(args@), args.len() as int),
{
    let mut out: Vec<char> = Vec::new();
    let mut k: usize = 0;
    while k < args.len()
        invariant
            k <= args.len(),
            out@ == joined(texts(args@), k as int),
        decreases args.len() - k,
    {
        if k > 0 {
            out.push(' ');
        }
        let word: &Vec<char> = &args[k];
        let mut i: usize = 0;
        let ghost start = out@;
        while i < word.len()
            invariant
                i <= word.len(),
                out@ == start + word@.subrange(0, i as int),
            decreases word.len() - i,
        {
            out.push(word[i]);
            i += 1;
            assert(out@ =~= start + word@.subrange(0, i as int));
        }
        assert(word@.subrange(0, word.len() as int) =~= word@);
        assert(texts(args@)[k as int] == word@);
        k += 1;
        assert(out@ =~= joined(texts(args@), k as int));
    }
    out
}

/// Reads the arguments of a `position` command, given as characters.
pub fn position_from_words(args: &Vec<Vec<char>>) -> (r: Option<Board>)
    ensures
        match r {
            Some(b) => spec_parse_position(texts(args@)) == Some(b@) && b.wf(),
            None => spec_parse_position(texts(args@)) is None,
        },
{
    if args.len() < 2 {
        return None;
    }
    let ghost words = texts(args@);
    assert(words[0] == args@[0]@ && words[1] == args@[1]@);
    let name: String = to_text(&args[0]);
    let variant: Variant = match Variant::from_str(name.as_str()) {
        Some(v) => v,
        None => {
            return None;
        },
    };
    let mut board: Board = if spells(&args[1], "startpos") {
        Board::new_startpos(variant)
    } else if spells(&args[1], "pieces") {
        let list: Vec<char> = if args.len() > 2 {
            assert(words[2] == args@[2]@);
            copy_of(&args[2])
        } else {
            Vec::new()
        };
        assert(list@ =~= if words.len() > 2 { words[2] } else { Seq::empty() });
        let parts: Vec<Vec<char>> = split(&list, ';');
        let mut b: Board = Board::empty(variant);
        let mut k: usize = 0;
        while k < parts.len()
            invariant
                k <= parts.len(),
                b.wf(),
                b.variant == variant,
                b.white_to_play,
                place_all(empty_cells(variant), texts(parts@), k as int) == Some(b@.cells),
                words == texts(args@),
                words.len() >= 2,
                Variant::spec_from_str(words[0]) == Some(variant),
                words[1] != "startpos"@,
                words[1] == "pieces"@,
                texts(parts@) == fields(
                    if words.len() > 2 {
                        words[2]
                    } else {
                        Seq::empty()
                    },
                    ';',
                    0,
                ),
            decreases parts.len() - k,
        {
            let part: Vec<char> = trim(&parts[k]);
            assert(texts(parts@)[k as int] == parts@[k as int]@);
            if part.len() > 0 {
                let f: Vec<Vec<char>> = split(&part, ':');
                if f.len() < 2 || f[1].len() == 0 {
                    proof {
                        assert(texts(f@).len() == f.len());
                        if f.len() >= 2 {
                            assert(texts(f@)[1] == f@[1]@);
                        }
                        lemma_place_fails(
                            empty_cells(variant),
                            texts(parts@),
                            k + 1,
                            parts.len() as int,
                        );
                    }
                    return None;
                }
                assert(texts(f@)[0] == f@[0]@ && texts(f@)[1] == f@[1]@);
                let square: String = to_text(&f[0]);
                let found: Option<Coord> = Coord::from_notation(square.as_str());
                let piece: Option<Piece> = Piece::from_char(f[1][0]);
                match (found, piece) {
                    (Some(c), Some(pc)) => {
                        b.set(c.col, c.row, Some(pc));
                    },
                    _ => {
                        proof {
                            lemma_place_fails(
                                empty_cells(variant),
                                texts(parts@),
                                k + 1,
                                parts.len() as int,
                            );
                        }
                        return None;
                    },
                }
            }
            k += 1;
        }
        b
    } else {
        return None;
    };
    let all: Vec<char> = join_words(args);
    let black: bool = contains(&all, &to_chars("stm b"));
    board.white_to_play = !black;
    Some(board)
}

/// A copy of the characters `v`.
fn copy_of(v: &Vec<char>) -> (r: Vec<char>)
    ensures
        r@ == v@,
{
    let r: Vec<char> = slice_of(v, 0, v.len());
    assert(v@.subrange(0, v.len() as int) =~= v@);
    r
}

/// Reads the arguments of a `position` command: what follows the word
/// `position`.
pub fn parse_position(args: &[&str]) -> (r: Option<Board>)
    ensures
        match r {
            Some(b) => spec_parse_position(str_views(args@)) == Some(b@) && b.wf(),
            None => spec_parse_position(str_views(args@)) is None,
        },
{
    let mut words: Vec<Vec<char>> = Vec::new();
    let mut k: usize = 0;
    while k < args.len()
        invariant
            k <= args.len(),
            words.len() == k,
            forall|i: int| 0 <= i < k ==> (#[trigger] words@[i])@ == args@[i]@,
        decreases args.len() - k,
    {
        words.push(to_chars(args[k]));
        k += 1;
    }
    assert(texts(words@) =~= str_views(args@));
    position_from_words(&words)
}

/// What a command leaves behind: whether more commands are to be read, the
/// board if one is set, and the text to write out.
pub ghost struct Reply {
    pub go_on: bool,
    pub board: Option<BoardView>,
    pub output: Seq<char>,
}

/// What the board of the protocol holds, if it is set.
pub open spec fn board_view(board: Option<Board>) -> Option<BoardView> {
    match board {
        Some(b) => Some(b@),
        None => None,
    }
}

/// The answer to one line. The first word is the command, in any case of
/// its letters; a line without words does nothing.
pub open spec fn respond(line: Seq<char>, board: Option<BoardView>) -> Reply {
    let words = tokens(line, 0);
    if words.len() == 0 {
        Reply { go_on: true, board, output: Seq::empty() }
    } else {
        let cmd = lower_form(words[0]);
        if cmd == "quit"@ || cmd == "exit"@ {
            Reply { go_on: false, board, output: Seq::empty() }
        } else if cmd == "position"@ {
            match spec_parse_position(words.subrange(1, words.len() as int)) {
                Some(b) => Reply { go_on: true, board: Some(b), output: Seq::empty() },
                None => Reply { go_on: true, board, output: "error invalid position\n"@ },
            }
        } else if cmd == "eval"@ {
            match board {
                Some(b) => Reply {
                    go_on: true,
                    board,
                    output: "eval "@ + decimal(material(b.cells)) + "\n"@,
                },
                None => Reply { go_on: true, board, output: "error no position set\n"@ },
            }
        } else if cmd == "uci"@ {
            Reply {
                go_on: true,
                board,
                output: "id name Hex Chess Engine\nid author Hex Chess\nuciok\n"@,
            }
        } else {
            Reply { go_on: true, board, output: "info unknown command "@ + cmd + "\n"@ }
        }
    }
}

/// Handles one line of input. Returns whether to go on reading, and the
/// text to write out, each line of it ended by a line feed.
pub fn handle_command(line: &str, board: &mut Option<Board>) -> (r: (bool, String))
    requires
        match *old(board) {
            Some(b) => b.wf(),
            None => true,
        },
    ensures
        r.0 == respond(line@, board_view(*old(board))).go_on,
        r.1@ == respond(line@, board_view(*old(board))).output,
        board_view(*final(board)) == respond(line@, board_view(*old(board))).board,
        match *final(board) {
            Some(b) => b.wf(),
            None => true,
        },
{
    let chars: Vec<char> = to_chars(line);
    let words: Vec<Vec<char>> = split_words(&chars);
    assert(texts(words@).len() == words.len());
    if words.len() == 0 {
        return (true, String::new());
    }
    assert(texts(words@)[0] == words@[0]@);
    let first: String = to_text(&words[0]);
    let cmd: Vec<char> = to_lower(first.as_str());
    let mut out: Vec<char> = Vec::new();
    let mut go_on: bool = true;
    if spells(&cmd, "quit") || spells(&cmd, "exit") {
        go_on = false;
    } else if spells(&cmd, "position") {
        let mut args: Vec<Vec<char>> = Vec::new();
        let mut k: usize = 1;
        while k < words.len()
            invariant
                1 <= k <= words.len(),
                args.len() == k - 1,
                forall|i: int| 0 <= i < k - 1 ==> (#[trigger] args@[i])@ == words@[i + 1]@,
            decreases words.len() - k,
        {
            args.push(copy_of(&words[k]));
            k += 1;
        }
        assert(texts(args@) =~= texts(words@).subrange(1, words.len() as int));
        match position_from_words(&args) {
            Some(b) => {
                *board = Some(b);
            },
            None => {
                out = to_chars("error invalid position\n");
            },
        }
    } else if spells(&cmd, "eval") {
        match &*board {
            Some(b) => {
                let score: i32 = evaluate(b);
                out = to_chars("eval ");
                let mut number: Vec<char> = decimal_chars(score);
                out.append(&mut number);
                out.push('\n');
                proof {
                    reveal_strlit("\n");
                    assert("\n"@ =~= seq!['\n']);
                    assert(out@ =~= "eval "@ + decimal(material(b@.cells)) + "\n"@);
                }
            },
            None => {
                out = to_chars("error no position set\n");
            },
        }
    } else if spells(&cmd, "uci") {
        out = to_chars("id name Hex Chess Engine\nid author Hex Chess\nuciok\n");
    } else {
        out = to_chars("info unknown command ");
        let mut name: Vec<char> = copy_of(&cmd);
        out.append(&mut name);
        out.push('\n');
        proof {
            reveal_strlit("\n");
            assert("\n"@ =~= seq!['\n']);
            assert(out@ =~= "info unknown command "@ + cmd@ + "\n"@);
        }
    }
    (go_on, to_text(&out))
}

} // verus!
