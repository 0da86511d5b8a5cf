use vstd::prelude::*;
use vstd::string::StringExecFns;

verus! {

// The tile components of the generated world: a tile's classification and
// a grid coordinate, with the exact text each renders as on a console.
/// The decimal digits of a number, most significant first.
pub open spec fn dec_str(n: nat) -> Seq<char>
    decreases n,
{
    if n < 10 {
        seq![((48 + n) as u8) as char]
    } else {
        dec_str(n / 10).push(((48 + n % 10) as u8) as char)
    }
}

/// One decimal digit as text.
fn digit_string(d: u64) -> (r: String)
    requires
        d < 10,
    ensures
        r@ == seq![((48 + d) as u8) as char],
{
    let r: &str = if d == 0 {
        "0"
    } else if d == 1 {
        "1"
    } else if d == 2 {
        "2"
    } else if d == 3 {
        "3"
    } else if d == 4 {
        "4"
    } else if d == 5 {
        "5"
    } else if d == 6 {
        "6"
    } else if d == 7 {
        "7"
    } else if d == 8 {
        "8"
    } else {
        "9"
    };
    proof {
        reveal_strlit("0");
        reveal_strlit("1");
        reveal_strlit("2");
        reveal_strlit("3");
        reveal_strlit("4");
        reveal_strlit("5");
        reveal_strlit("6");
        reveal_strlit("7");
        reveal_strlit("8");
        reveal_strlit("9");
        assert(r@ =~= seq![((48 + d) as u8) as char]);
    }
    r.to_owned()
}

/// A number as decimal text.
pub fn uint_to_string(n: u64) -> (r: String)
    ensures
        r@ == dec_str(n as nat),
    decreases n,
{
    if n < 10 {
        digit_string(n)
    } else {
        let mut s = uint_to_string(n / 10);
        let d = digit_string(n % 10);
        s.append(d.as_str());
        proof {
            assert(s@ =~= dec_str(n as nat));
        }
        s
    }
}

/// One minefield tile: a bomb, a neighbor count, or nothing.
#[derive(Debug, Clone, Copy, PartialEq, Eq, Structural)]
pub enum Tile {
    /// Is a bomb
    Bomb,
    /// Is a bomb neighbor
    BombNeighbor(u8),
    /// Empty tile
    Empty,
}

/// The console marker of a tile: a star for a bomb, the neighbor count as
/// digits, a blank for an empty tile.
pub open spec fn tile_marker(t: Tile) -> Seq<char> {
    match t {
        Tile::Bomb => "*"@,
        Tile::BombNeighbor(v) => dec_str(v as nat),
        Tile::Empty => " "@,
    }
}

impl Tile {
    /// Is the tile a bomb?
    pub fn is_bomb(&self) -> (r: bool)
        ensures
            r == (self is Bomb),
    {
        match self {
            Tile::Bomb => true,
            _ => false,
        }
    }

    /// The tile's console marker.
    pub fn console_output(&self) -> (r: String)
        ensures
            r@ == tile_marker(*self),
    {
        match self {
            Tile::Bomb => {
                proof {
                    reveal_strlit("*");
                }
                "*".to_owned()
            },
            Tile::BombNeighbor(v) => uint_to_string(*v as u64),
            Tile::Empty => {
                proof {
                    reveal_strlit(" ");
                }
                " ".to_owned()
            },
        }
    }
}

/// One axis of a wrapping step: the coordinate plus the signed offset,
/// reduced into the grid's range.
fn wrap_step(c: u16, d: i8) -> (r: u16)
    ensures
        r as int == (c as int + d as int + 0x10000) % 0x10000,
{
    let sum: i32 = c as i32 + d as i32;
    let r: u16 = if sum < 0 {
        (sum + 0x10000) as u16
    } else if sum >= 0x10000 {
        (sum - 0x10000) as u16
    } else {
        sum as u16
    };
    proof {
        let target = c as int + d as int + 0x10000;
        if sum < 0 {
            vstd::arithmetic::div_mod::lemma_small_mod((sum + 0x10000) as nat, 0x10000);
        } else if sum >= 0x10000 {
            vstd::arithmetic::div_mod::lemma_mod_multiples_vanish(
                2,
                sum - 0x10000,
                0x10000,
            );
            vstd::arithmetic::div_mod::lemma_small_mod((sum - 0x10000) as nat, 0x10000);
        } else {
            vstd::arithmetic::div_mod::lemma_mod_multiples_vanish(1, sum as int, 0x10000);
            vstd::arithmetic::div_mod::lemma_small_mod(sum as nat, 0x10000);
        }
    }
    r
}

/// A grid coordinate.
#[derive(Debug, Clone, Copy, PartialEq, Eq, PartialOrd, Ord, Hash, Structural)]
pub struct Coordinates {
    pub x: u16,
    pub y: u16,
}

impl Default for Coordinates {
    /// The origin.
    fn default() -> (r: Coordinates)
        ensures
            r == (Coordinates { x: 0u16, y: 0u16 }),
    {
        Coordinates { x: 0, y: 0 }
    }
}

impl Coordinates {
    /// Moves the coordinate by a small signed step per axis, wrapping at
    /// the grid's edges as two's-complement addition does.
    pub fn offset_by(self, dx: i8, dy: i8) -> (r: Coordinates)
        ensures
            r.x as int == (self.x as int + dx as int + 0x10000) % 0x10000,
            r.y as int == (self.y as int + dy as int + 0x10000) % 0x10000,
    {
        Coordinates { x: wrap_step(self.x, dx), y: wrap_step(self.y, dy) }
    }

    /// The component-wise difference, stopping at zero.
    pub fn diff(self, rhs: Coordinates) -> (r: Coordinates)
        ensures
            r.x == if self.x >= rhs.x {
                (self.x - rhs.x) as u16
            } else {
                0u16
            },
            r.y == if self.y >= rhs.y {
                (self.y - rhs.y) as u16
            } else {
                0u16
            },
    {
        Coordinates { x: self.x.saturating_sub(rhs.x), y: self.y.saturating_sub(rhs.y) }
    }

    /// The coordinate as text, as a parenthesized pair.
    pub fn to_text(&self) -> (r: String)
        ensures
            r@ == "("@ + dec_str(self.x as nat) + ", "@ + dec_str(self.y as nat) + ")"@,
    {
        let mut s = "(".to_owned();
        let xs = uint_to_string(self.x as u64);
        s.append(xs.as_str());
        s.append(", ");
        let ys = uint_to_string(self.y as u64);
        s.append(ys.as_str());
        s.append(")");
        s
    }
}

} // verus!
