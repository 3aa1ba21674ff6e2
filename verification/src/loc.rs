use vstd::prelude::*;
use vstd::string::*;
use crate::text::{decimal, push_char, push_decimal};

verus! {

/// A place in a source text: the source's name, and a row and a column that
/// both count from zero.
#[derive(Debug, PartialEq, Eq)]
pub struct Loc {
    pub file_path: String,
    pub row: usize,
    pub col: usize,
}

/// The mathematical value of a `Loc`.
pub struct LocView {
    pub file_path: Seq<char>,
    pub row: nat,
    pub col: nat,
}

impl View for Loc {
    type V = LocView;

    open spec fn view(&self) -> LocView {
        LocView { file_path: self.file_path@, row: self.row as nat, col: self.col as nat }
    }
}

/// How a place is shown: the source's name, then row and column counted from
/// one, with colons between.
pub open spec fn display_spec(l: LocView) -> Seq<char> {
    l.file_path + seq![':'] + decimal(l.row + 1) + seq![':'] + decimal(l.col + 1)
}

impl Loc {
    /// The place at this row and column of the source of this name.
    pub fn new(file_path: String, row: usize, col: usize) -> (l: Loc)
        ensures
            l@ == (LocView { file_path: file_path@, row: row as nat, col: col as nat }),
    {
        Loc { file_path, row, col }
    }

    /// A copy of this place.
    pub fn duplicate(&self) -> (l: Loc)
        ensures
            l@ == self@,
    {
        Loc { file_path: self.file_path.clone(), row: self.row, col: self.col }
    }

    /// This place as a diagnostic shows it.
    pub fn display(&self) -> (s: String)
        ensures
            s@ == display_spec(self@),
    {
        let mut s: String = self.file_path.clone();
        push_char(&mut s, ':');
        push_decimal(&mut s, self.row as u128 + 1);
        push_char(&mut s, ':');
        push_decimal(&mut s, self.col as u128 + 1);
        assert(s@ =~= display_spec(self@));
        s
    }
}

} // verus!
