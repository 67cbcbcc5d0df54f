//! The level's tile grid: one hexadecimal digit per tile, one text line per
//! row.
use vstd::prelude::*;

verus! {

/// The level layout. Row `0` is the empty line before the first row of tiles.
pub const MAP: &'static str = "
999999999
999999999
992131099
994555899
994555899
996AAA799
999999999
999999999
";

/// One tile of the grid: its row, its column and its atlas index.
#[derive(Debug, Clone, Copy, PartialEq, Eq, Structural)]
pub struct Tile {
    pub row: usize,
    pub col: usize,
    pub index: u8,
}

impl View for Tile {
    type V = (nat, nat, u8);

    open spec fn view(&self) -> (nat, nat, u8) {
        (self.row as nat, self.col as nat, self.index)
    }
}

/// The value of a hexadecimal digit, either case.
pub open spec fn hex_value(b: u8) -> Option<u8> {
    if 48 <= b <= 57 {
        Some((b - 48) as u8)
    } else if 97 <= b <= 102 {
        Some((b - 87) as u8)
    } else if 65 <= b <= 70 {
        Some((b - 55) as u8)
    } else {
        None
    }
}

/// `acc` followed by `rest`, when there is a rest.
pub open spec fn prepend(acc: Seq<(nat, nat, u8)>, rest: Option<Seq<(nat, nat, u8)>>) -> Option<
    Seq<(nat, nat, u8)>,
> {
    match rest {
        Some(r) => Some(acc + r),
        None => None,
    }
}

/// The tiles of `map` from byte `i` on, the byte standing at `row` and
/// `col`. A line ends at `\n` or at `\r\n`; any other byte must be a
/// hexadecimal digit, else the grid is malformed (`None`).
pub open spec fn scan(map: Seq<u8>, i: int, row: nat, col: nat) -> Option<Seq<(nat, nat, u8)>>
    decreases map.len() - i,
{
    if i < 0 || i >= map.len() {
        Some(Seq::empty())
    } else if map[i] == 10u8 {
        scan(map, i + 1, row + 1, 0)
    } else if map[i] == 13u8 && i + 1 < map.len() && map[i + 1] == 10u8 {
        scan(map, i + 1, row, col)
    } else {
        match hex_value(map[i]) {
            Some(v) => prepend(seq![(row, col, v)], scan(map, i + 1, row, col + 1)),
            None => None,
        }
    }
}

fn hex_digit(b: u8) -> (r: Option<u8>)
    ensures
        r == hex_value(b),
{
    if 48 <= b && b <= 57 {
        Some(b - 48)
    } else if 97 <= b && b <= 102 {
        Some(b - 87)
    } else if 65 <= b && b <= 70 {
        Some(b - 55)
    } else {
        None
    }
}

/// The tiles of a grid, row by row and left to right; `None` when a byte is
/// neither a line end nor a hexadecimal digit.
pub fn parse_map(map: &[u8]) -> (r: Option<Vec<Tile>>)
    ensures
        match r {
            Some(tiles) => scan(map@, 0, 0, 0) == Some(tiles@.map_values(|t: Tile| t@)),
            None => scan(map@, 0, 0, 0) is None,
        },
{
    let mut tiles: Vec<Tile> = Vec::new();
    let mut i: usize = 0;
    let mut row: usize = 0;
    let mut col: usize = 0;
    while i < map.len()
        invariant
            i <= map@.len(),
            row <= i,
            col <= i,
            scan(map@, 0, 0, 0) == prepend(tiles@.map_values(|t: Tile| t@), scan(map@, i as int, row as nat, col as nat)),
        decreases map@.len() - i,
    {
        let b = map[i];
        if b == 10 {
            row = row + 1;
            col = 0;
        } else if b == 13 && i + 1 < map.len() && map[i + 1] == 10 {
        } else {
            match hex_digit(b) {
                Some(v) => {
                    let ghost before = tiles@.map_values(|t: Tile| t@);
                    tiles.push(Tile { row, col, index: v });
                    proof {
                        let rest = scan(map@, i + 1, row as nat, (col + 1) as nat);
                        assert(tiles@.map_values(|t: Tile| t@) =~= before + seq![(row as nat, col as nat, v)]);
                        if rest is Some {
                            assert(before + (seq![(row as nat, col as nat, v)] + rest->0) =~= (before
                                + seq![(row as nat, col as nat, v)]) + rest->0);
                        }
                    }
                    col = col + 1;
                },
                None => {
                    return None;
                },
            }
        }
        i = i + 1;
    }
    assert(tiles@.map_values(|t: Tile| t@) + Seq::<(nat, nat, u8)>::empty() =~= tiles@.map_values(|t: Tile| t@));
    Some(tiles)
}

} // verus!
