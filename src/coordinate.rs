use vstd::prelude::*;

use crate::board::Error;
use crate::geometry::{col, row};

verus! {

/// A square of the board by its algebraic name.
#[derive(Debug, Copy, Clone, PartialEq, Eq, Structural)]
pub enum Coordinate {
    A1, A2, A3, A4, A5, A6, A7, A8,
    B1, B2, B3, B4, B5, B6, B7, B8,
    C1, C2, C3, C4, C5, C6, C7, C8,
    D1, D2, D3, D4, D5, D6, D7, D8,
    E1, E2, E3, E4, E5, E6, E7, E8,
    F1, F2, F3, F4, F5, F6, F7, F8,
    G1, G2, G3, G4, G5, G6, G7, G8,
    H1, H2, H3, H4, H5, H6, H7, H8,
}

/// The board index (0 = a8, 63 = h1) of a named square.
pub open spec fn coordinate_index(c: Coordinate) -> int {
    match c {
        Coordinate::A1 => 56,
        Coordinate::A2 => 48,
        Coordinate::A3 => 40,
        Coordinate::A4 => 32,
        Coordinate::A5 => 24,
        Coordinate::A6 => 16,
        Coordinate::A7 => 8,
        Coordinate::A8 => 0,
        Coordinate::B1 => 57,
        Coordinate::B2 => 49,
        Coordinate::B3 => 41,
        Coordinate::B4 => 33,
        Coordinate::B5 => 25,
        Coordinate::B6 => 17,
        Coordinate::B7 => 9,
        Coordinate::B8 => 1,
        Coordinate::C1 => 58,
        Coordinate::C2 => 50,
        Coordinate::C3 => 42,
        Coordinate::C4 => 34,
        Coordinate::C5 => 26,
        Coordinate::C6 => 18,
        Coordinate::C7 => 10,
        Coordinate::C8 => 2,
        Coordinate::D1 => 59,
        Coordinate::D2 => 51,
        Coordinate::D3 => 43,
        Coordinate::D4 => 35,
        Coordinate::D5 => 27,
        Coordinate::D6 => 19,
        Coordinate::D7 => 11,
        Coordinate::D8 => 3,
        Coordinate::E1 => 60,
        Coordinate::E2 => 52,
        Coordinate::E3 => 44,
        Coordinate::E4 => 36,
        Coordinate::E5 => 28,
        Coordinate::E6 => 20,
        Coordinate::E7 => 12,
        Coordinate::E8 => 4,
        Coordinate::F1 => 61,
        Coordinate::F2 => 53,
        Coordinate::F3 => 45,
        Coordinate::F4 => 37,
        Coordinate::F5 => 29,
        Coordinate::F6 => 21,
        Coordinate::F7 => 13,
        Coordinate::F8 => 5,
        Coordinate::G1 => 62,
        Coordinate::G2 => 54,
        Coordinate::G3 => 46,
        Coordinate::G4 => 38,
        Coordinate::G5 => 30,
        Coordinate::G6 => 22,
        Coordinate::G7 => 14,
        Coordinate::G8 => 6,
        Coordinate::H1 => 63,
        Coordinate::H2 => 55,
        Coordinate::H3 => 47,
        Coordinate::H4 => 39,
        Coordinate::H5 => 31,
        Coordinate::H6 => 23,
        Coordinate::H7 => 15,
        Coordinate::H8 => 7,
    }
}

/// The file letter `a`..`h` of a board index.
pub open spec fn file_char(i: int) -> char {
    (('a' as u32) + col(i)) as char
}

/// The rank digit `1`..`8` of a board index.
pub open spec fn rank_char(i: int) -> char {
    (('8' as u32) - row(i)) as char
}

/// The algebraic name of a board index, such as `e4`.
pub open spec fn square_name(i: int) -> Seq<char> {
    seq![file_char(i), rank_char(i)]
}

/// The index that a two-letter algebraic name denotes, if it is one.
pub open spec fn index_of_name(s: Seq<char>) -> Option<int> {
    if s.len() == 2 && 'a' <= s[0] <= 'h' && '1' <= s[1] <= '8' {
        Some(8 * (('8' as int) - (s[1] as int)) + ((s[0] as int) - ('a' as int)))
    } else {
        None
    }
}

impl Coordinate {
    /// Reads an algebraic square name, or `-` for no square.
    pub fn from(coordinate: &str) -> (r: Result<Option<Coordinate>, Error>)
        ensures
            coordinate@ == seq!['-'] ==> r == Ok::<Option<Coordinate>, Error>(None),
            index_of_name(coordinate@) matches Some(i) ==> (r matches Ok(Some(c))
                && coordinate_index(c) == i),
            coordinate@ != seq!['-'] && index_of_name(coordinate@) is None ==> (r matches Err(
                Error::InvalidCoordinate(s),
            ) && s@ == coordinate@),
    {
        let n = coordinate.unicode_len();
        if n == 1 && coordinate.get_char(0) == '-' {
            assert(coordinate@ =~= seq!['-']);
            return Ok(None);
        }
        if n == 2 {
            let f = coordinate.get_char(0);
            let r = coordinate.get_char(1);
            if 'a' <= f && f <= 'h' && '1' <= r && r <= '8' {
                let index = 8 * (('8' as u32 - r as u32) as usize) + (f as u32 - 'a' as u32) as usize;
                return Ok(Some(Coordinate::from_index(index)));
            }
        }
        Err(Error::InvalidCoordinate(String::from_str(coordinate)))
    }

    /// The board index of this square.
    pub fn into_index(self) -> (r: usize)
        ensures
            r == coordinate_index(self),
            r < 64,
    {
        match self {
            Coordinate::A8 => 0,
            Coordinate::B8 => 1,
            Coordinate::C8 => 2,
            Coordinate::D8 => 3,
            Coordinate::E8 => 4,
            Coordinate::F8 => 5,
            Coordinate::G8 => 6,
            Coordinate::H8 => 7,
            Coordinate::A7 => 8,
            Coordinate::B7 => 9,
            Coordinate::C7 => 10,
            Coordinate::D7 => 11,
            Coordinate::E7 => 12,
            Coordinate::F7 => 13,
            Coordinate::G7 => 14,
            Coordinate::H7 => 15,
            Coordinate::A6 => 16,
            Coordinate::B6 => 17,
            Coordinate::C6 => 18,
            Coordinate::D6 => 19,
            Coordinate::E6 => 20,
            Coordinate::F6 => 21,
            Coordinate::G6 => 22,
            Coordinate::H6 => 23,
            Coordinate::A5 => 24,
            Coordinate::B5 => 25,
            Coordinate::C5 => 26,
            Coordinate::D5 => 27,
            Coordinate::E5 => 28,
            Coordinate::F5 => 29,
            Coordinate::G5 => 30,
            Coordinate::H5 => 31,
            Coordinate::A4 => 32,
            Coordinate::B4 => 33,
            Coordinate::C4 => 34,
            Coordinate::D4 => 35,
            Coordinate::E4 => 36,
            Coordinate::F4 => 37,
            Coordinate::G4 => 38,
            Coordinate::H4 => 39,
            Coordinate::A3 => 40,
            Coordinate::B3 => 41,
            Coordinate::C3 => 42,
            Coordinate::D3 => 43,
            Coordinate::E3 => 44,
            Coordinate::F3 => 45,
            Coordinate::G3 => 46,
            Coordinate::H3 => 47,
            Coordinate::A2 => 48,
            Coordinate::B2 => 49,
            Coordinate::C2 => 50,
            Coordinate::D2 => 51,
            Coordinate::E2 => 52,
            Coordinate::F2 => 53,
            Coordinate::G2 => 54,
            Coordinate::H2 => 55,
            Coordinate::A1 => 56,
            Coordinate::B1 => 57,
            Coordinate::C1 => 58,
            Coordinate::D1 => 59,
            Coordinate::E1 => 60,
            Coordinate::F1 => 61,
            Coordinate::G1 => 62,
            Coordinate::H1 => 63,
        }
    }

    /// The square at a board index.
    pub fn from_index(index: usize) -> (r: Coordinate)
        requires
            index < 64,
        ensures
            coordinate_index(r) == index,
    {
        match index {
            0 => Coordinate::A8,
            1 => Coordinate::B8,
            2 => Coordinate::C8,
            3 => Coordinate::D8,
            4 => Coordinate::E8,
            5 => Coordinate::F8,
            6 => Coordinate::G8,
            7 => Coordinate::H8,
            8 => Coordinate::A7,
            9 => Coordinate::B7,
            10 => Coordinate::C7,
            11 => Coordinate::D7,
            12 => Coordinate::E7,
            13 => Coordinate::F7,
            14 => Coordinate::G7,
            15 => Coordinate::H7,
            16 => Coordinate::A6,
            17 => Coordinate::B6,
            18 => Coordinate::C6,
            19 => Coordinate::D6,
            20 => Coordinate::E6,
            21 => Coordinate::F6,
            22 => Coordinate::G6,
            23 => Coordinate::H6,
            24 => Coordinate::A5,
            25 => Coordinate::B5,
            26 => Coordinate::C5,
            27 => Coordinate::D5,
            28 => Coordinate::E5,
            29 => Coordinate::F5,
            30 => Coordinate::G5,
            31 => Coordinate::H5,
            32 => Coordinate::A4,
            33 => Coordinate::B4,
            34 => Coordinate::C4,
            35 => Coordinate::D4,
            36 => Coordinate::E4,
            37 => Coordinate::F4,
            38 => Coordinate::G4,
            39 => Coordinate::H4,
            40 => Coordinate::A3,
            41 => Coordinate::B3,
            42 => Coordinate::C3,
            43 => Coordinate::D3,
            44 => Coordinate::E3,
            45 => Coordinate::F3,
            46 => Coordinate::G3,
            47 => Coordinate::H3,
            48 => Coordinate::A2,
            49 => Coordinate::B2,
            50 => Coordinate::C2,
            51 => Coordinate::D2,
            52 => Coordinate::E2,
            53 => Coordinate::F2,
            54 => Coordinate::G2,
            55 => Coordinate::H2,
            56 => Coordinate::A1,
            57 => Coordinate::B1,
            58 => Coordinate::C1,
            59 => Coordinate::D1,
            60 => Coordinate::E1,
            61 => Coordinate::F1,
            62 => Coordinate::G1,
            _ => Coordinate::H1,
        }
    }

    /// The algebraic name of this square, such as `e4`.
    pub fn to_string(&self) -> (r: String)
        ensures
            r@ == square_name(coordinate_index(*self)),
    {
        let i = self.into_index();
        let f: &str = match i % 8 {
            0 => "a",
            1 => "b",
            2 => "c",
            3 => "d",
            4 => "e",
            5 => "f",
            6 => "g",
            _ => "h",
        };
        let r: &str = match i / 8 {
            0 => "8",
            1 => "7",
            2 => "6",
            3 => "5",
            4 => "4",
            5 => "3",
            6 => "2",
            _ => "1",
        };
        proof {
            reveal_strlit("a");
            reveal_strlit("b");
            reveal_strlit("c");
            reveal_strlit("d");
            reveal_strlit("e");
            reveal_strlit("f");
            reveal_strlit("g");
            reveal_strlit("h");
            reveal_strlit("1");
            reveal_strlit("2");
            reveal_strlit("3");
            reveal_strlit("4");
            reveal_strlit("5");
            reveal_strlit("6");
            reveal_strlit("7");
            reveal_strlit("8");
        }
        let mut s = String::from_str(f);
        s.append(r);
        assert(s@ =~= square_name(i as int));
        s
    }
}

} // verus!
