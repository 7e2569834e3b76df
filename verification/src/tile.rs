use vstd::prelude::*;
use vstd::string::*;
use colored::Colorize;
use crate::pieces::{Piece, PieceKind};
use crate::player::PlayerColor;

verus! {

/// Marks a goal tile of the board.
#[derive(Debug)]
pub struct TempleTile;

/// One square of the board, empty or holding a piece.
#[derive(Debug, Clone, Copy, Eq, PartialEq)]
pub struct Tile {
    pub piece: Option<Piece>,
}

/// The character that starts a terminal's colour sequence.
pub open spec fn escape() -> char {
    '\x1B'
}

/// Whether `out` is `text` as a terminal shows it in the colour with the
/// given code: the text alone where colours are switched off, and else the
/// text between the sequence that sets the colour and the one that resets it.
pub open spec fn painted(text: Seq<char>, code: Seq<char>, out: Seq<char>) -> bool {
    out == text || out == seq![escape(), '['] + code + seq!['m'] + text + seq![
        escape(),
        '[',
        '0',
        'm',
    ]
}

/// The colour code of cyan.
pub open spec fn cyan_code() -> Seq<char> {
    seq!['3', '6']
}

/// The colour code of bright red.
pub open spec fn bright_red_code() -> Seq<char> {
    seq!['9', '1']
}

/// `Colorize::cyan` of `colored`, printed: the text in cyan, or the text
/// alone where the process has colours switched off. The text must hold no
/// colour sequence of its own.
#[verifier::external_body]
fn cyan_text(text: &str) -> (out: String)
    requires
        !text@.contains(escape()),
    ensures
        painted(text@, cyan_code(), out@),
{
    format!("{}", text.cyan())
}

/// `Colorize::bright_red` of `colored`, printed: the text in bright red, or
/// the text alone where the process has colours switched off. The text must
/// hold no colour sequence of its own.
#[verifier::external_body]
fn bright_red_text(text: &str) -> (out: String)
    requires
        !text@.contains(escape()),
    ensures
        painted(text@, bright_red_code(), out@),
{
    format!("{}", text.bright_red())
}

/// `Colorize::normal` of `colored`, printed: the text without any colour.
#[verifier::external_body]
fn normal_text(text: &str) -> (out: String)
    ensures
        out@ == text@,
{
    format!("{}", text.normal())
}

/// The letter that stands for a piece: `B` and `R` for the leaders, `b` and
/// `r` for the soldiers.
pub open spec fn letter(piece: Piece) -> Seq<char> {
    match (piece.color, piece.kind) {
        (PlayerColor::Blue, PieceKind::King) => "B"@,
        (PlayerColor::Blue, PieceKind::Pawn) => "b"@,
        (PlayerColor::Red, PieceKind::King) => "R"@,
        (PlayerColor::Red, PieceKind::Pawn) => "r"@,
    }
}

/// The colour code of a side: cyan for Blue, bright red for Red.
pub open spec fn side_code(color: PlayerColor) -> Seq<char> {
    match color {
        PlayerColor::Blue => cyan_code(),
        PlayerColor::Red => bright_red_code(),
    }
}

/// Whether `out` shows a square: a blank for an empty one, and else the
/// letter of its piece in the colour of the piece's side.
pub open spec fn shows(piece: Option<Piece>, out: Seq<char>) -> bool {
    match piece {
        Some(p) => painted(letter(p), side_code(p.color), out),
        None => out == " "@,
    }
}

impl Tile {
    pub fn new(piece: Option<Piece>) -> (r: Self)
        ensures
            r.piece == piece,
    {
        Self { piece }
    }

    /// The square as one character for the console, coloured by side.
    pub fn console_output(&self) -> (out: String)
        ensures
            shows(self.piece, out@),
    {
        proof {
            reveal_strlit("B");
            reveal_strlit("b");
            reveal_strlit("R");
            reveal_strlit("r");
        }
        match self.piece {
            Some(piece) => {
                match (piece.color, piece.kind) {
                    (PlayerColor::Blue, PieceKind::King) => cyan_text("B"),
                    (PlayerColor::Blue, PieceKind::Pawn) => cyan_text("b"),
                    (PlayerColor::Red, PieceKind::King) => bright_red_text("R"),
                    (PlayerColor::Red, PieceKind::Pawn) => bright_red_text("r"),
                }
            },
            None => normal_text(" "),
        }
    }
}

} // verus!
