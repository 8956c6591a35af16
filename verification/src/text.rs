//! The letters that can be drawn onto a board: 3 cells wide and 5 cells
//! high, each written as five octal digits, one for each row from the top,
//! whose three bits are the cells of the row from the left.

use vstd::prelude::*;
use crate::types::PowerupType;

verus! {

/// The width of a letter in cells.
pub const C_WIDTH: usize = 3;

/// The height of a letter in cells.
pub const C_HEIGHT: usize = 5;

pub const GLYPH_A: u16 = 0o25755;
pub const GLYPH_B: u16 = 0o65656;
pub const GLYPH_C: u16 = 0o34443;
pub const GLYPH_D: u16 = 0o65556;
pub const GLYPH_E: u16 = 0o74647;
pub const GLYPH_F: u16 = 0o74644;
pub const GLYPH_G: u16 = 0o34453;
pub const GLYPH_H: u16 = 0o55755;
pub const GLYPH_I: u16 = 0o72227;
pub const GLYPH_J: u16 = 0o71153;
pub const GLYPH_K: u16 = 0o56465;
pub const GLYPH_L: u16 = 0o44447;
pub const GLYPH_M: u16 = 0o57755;
pub const GLYPH_N: u16 = 0o65555;
pub const GLYPH_O: u16 = 0o25552;
pub const GLYPH_P: u16 = 0o65644;
pub const GLYPH_Q: u16 = 0o25521;
pub const GLYPH_R: u16 = 0o65655;
pub const GLYPH_S: u16 = 0o34216;
pub const GLYPH_T: u16 = 0o72222;
pub const GLYPH_U: u16 = 0o55557;
pub const GLYPH_V: u16 = 0o55552;
pub const GLYPH_W: u16 = 0o45774;
pub const GLYPH_X: u16 = 0o55255;
pub const GLYPH_Y: u16 = 0o55222;
pub const GLYPH_Z: u16 = 0o71247;
pub const GLYPH_0: u16 = 0o25552;
pub const GLYPH_1: u16 = 0o26222;
pub const GLYPH_2: u16 = 0o61127;
pub const GLYPH_3: u16 = 0o71217;
pub const GLYPH_4: u16 = 0o55711;
pub const GLYPH_5: u16 = 0o74616;
pub const GLYPH_6: u16 = 0o34652;
pub const GLYPH_7: u16 = 0o71222;
pub const GLYPH_8: u16 = 0o75757;
pub const GLYPH_9: u16 = 0o25316;
pub const GLYPH_SPACE: u16 = 0o00000;
pub const GLYPH_COLON: u16 = 0o02020;
pub const GLYPH_DASH: u16 = 0o00700;
pub const GLYPH_OPEN: u16 = 0o24442;
pub const GLYPH_CLOSE: u16 = 0o21112;
pub const GLYPH_COMMA: u16 = 0o00224;
pub const GLYPH_DOT: u16 = 0o00002;

/// The letter for `c`, where there is one.
pub open spec fn glyph_code(c: char) -> Option<u16> {
    match c {
        'a' => Some(GLYPH_A),
        'b' => Some(GLYPH_B),
        'c' => Some(GLYPH_C),
        'd' => Some(GLYPH_D),
        'e' => Some(GLYPH_E),
        'f' => Some(GLYPH_F),
        'g' => Some(GLYPH_G),
        'h' => Some(GLYPH_H),
        'i' => Some(GLYPH_I),
        'j' => Some(GLYPH_J),
        'k' => Some(GLYPH_K),
        'l' => Some(GLYPH_L),
        'm' => Some(GLYPH_M),
        'n' => Some(GLYPH_N),
        'o' => Some(GLYPH_O),
        'p' => Some(GLYPH_P),
        'q' => Some(GLYPH_Q),
        'r' => Some(GLYPH_R),
        's' => Some(GLYPH_S),
        't' => Some(GLYPH_T),
        'u' => Some(GLYPH_U),
        'v' => Some(GLYPH_V),
        'w' => Some(GLYPH_W),
        'x' => Some(GLYPH_X),
        'y' => Some(GLYPH_Y),
        'z' => Some(GLYPH_Z),
        '0' => Some(GLYPH_0),
        '1' => Some(GLYPH_1),
        '2' => Some(GLYPH_2),
        '3' => Some(GLYPH_3),
        '4' => Some(GLYPH_4),
        '5' => Some(GLYPH_5),
        '6' => Some(GLYPH_6),
        '7' => Some(GLYPH_7),
        '8' => Some(GLYPH_8),
        '9' => Some(GLYPH_9),
        ' ' => Some(GLYPH_SPACE),
        ':' => Some(GLYPH_COLON),
        '-' => Some(GLYPH_DASH),
        '(' => Some(GLYPH_OPEN),
        ')' => Some(GLYPH_CLOSE),
        ',' => Some(GLYPH_COMMA),
        '.' => Some(GLYPH_DOT),
        _ => None,
    }
}

/// The lower-case form of an upper-case letter of the Latin alphabet; any
/// other character is left as it is.
pub open spec fn lowered(c: char) -> char {
    if 'A' <= c && c <= 'Z' {
        ((c as u8) + 32) as char
    } else {
        c
    }
}

/// Row `dy` of a letter, as a number below 8.
pub open spec fn glyph_row(code: u16, dy: int) -> int {
    if dy == 0 {
        (code as int / 0o10000) % 8
    } else if dy == 1 {
        (code as int / 0o1000) % 8
    } else if dy == 2 {
        (code as int / 0o100) % 8
    } else if dy == 3 {
        (code as int / 0o10) % 8
    } else {
        (code as int) % 8
    }
}

/// Whether the cell in column `dx` of row `dy` of a letter is filled.
pub open spec fn glyph_cell(code: u16, dx: int, dy: int) -> bool {
    if dx == 0 {
        (glyph_row(code, dy) / 4) % 2 == 1
    } else if dx == 1 {
        (glyph_row(code, dy) / 2) % 2 == 1
    } else {
        glyph_row(code, dy) % 2 == 1
    }
}

/// A letter as rows of cells.
pub open spec fn glyph_cells(code: u16) -> Seq<Seq<bool>> {
    Seq::new(5, |dy: int| Seq::new(3, |dx: int| glyph_cell(code, dx, dy)))
}

pub fn to_lower(c: char) -> (l: char)
    ensures
        l == lowered(c),
{
    if 'A' <= c && c <= 'Z' {
        ((c as u8) + 32) as char
    } else {
        c
    }
}

/// Looks up the letter for `c`.
pub fn char_code(c: char) -> (code: Option<u16>)
    ensures
        code == glyph_code(c),
{
    match c {
        'a' => Some(GLYPH_A),
        'b' => Some(GLYPH_B),
        'c' => Some(GLYPH_C),
        'd' => Some(GLYPH_D),
        'e' => Some(GLYPH_E),
        'f' => Some(GLYPH_F),
        'g' => Some(GLYPH_G),
        'h' => Some(GLYPH_H),
        'i' => Some(GLYPH_I),
        'j' => Some(GLYPH_J),
        'k' => Some(GLYPH_K),
        'l' => Some(GLYPH_L),
        'm' => Some(GLYPH_M),
        'n' => Some(GLYPH_N),
        'o' => Some(GLYPH_O),
        'p' => Some(GLYPH_P),
        'q' => Some(GLYPH_Q),
        'r' => Some(GLYPH_R),
        's' => Some(GLYPH_S),
        't' => Some(GLYPH_T),
        'u' => Some(GLYPH_U),
        'v' => Some(GLYPH_V),
        'w' => Some(GLYPH_W),
        'x' => Some(GLYPH_X),
        'y' => Some(GLYPH_Y),
        'z' => Some(GLYPH_Z),
        '0' => Some(GLYPH_0),
        '1' => Some(GLYPH_1),
        '2' => Some(GLYPH_2),
        '3' => Some(GLYPH_3),
        '4' => Some(GLYPH_4),
        '5' => Some(GLYPH_5),
        '6' => Some(GLYPH_6),
        '7' => Some(GLYPH_7),
        '8' => Some(GLYPH_8),
        '9' => Some(GLYPH_9),
        ' ' => Some(GLYPH_SPACE),
        ':' => Some(GLYPH_COLON),
        '-' => Some(GLYPH_DASH),
        '(' => Some(GLYPH_OPEN),
        ')' => Some(GLYPH_CLOSE),
        ',' => Some(GLYPH_COMMA),
        '.' => Some(GLYPH_DOT),
        _ => None,
    }
}

/// Unpacks a letter into rows of cells.
pub fn glyph_grid(code: u16) -> (grid: [[bool; 3]; 5])
    ensures
        grid@.len() == 5,
        forall|dy: int| 0 <= dy < 5 ==> (#[trigger] grid@[dy])@ == glyph_cells(code)[dy],
{
    let rows: [u16; 5] = [
        (code / 0o10000) % 8,
        (code / 0o1000) % 8,
        (code / 0o100) % 8,
        (code / 0o10) % 8,
        code % 8,
    ];
    let mut grid = [[false; 3]; 5];
    let mut dy: usize = 0;
    while dy < 5
        invariant
            dy <= 5,
            forall|k: int| 0 <= k < 5 ==> #[trigger] rows@[k] == glyph_row(code, k),
            forall|k: int| 0 <= k < dy ==> (#[trigger] grid@[k])@ == glyph_cells(code)[k],
        decreases 5 - dy,
    {
        let row = rows[dy];
        grid[dy] = [(row / 4) % 2 == 1, (row / 2) % 2 == 1, row % 2 == 1];
        proof {
            assert(grid@[dy as int]@ =~= glyph_cells(code)[dy as int]);
        }
        dy += 1;
    }
    grid
}

/// The width of a powerup sign in cells.
pub const P_WIDTH: usize = 5;

/// The height of a powerup sign in cells.
pub const P_HEIGHT: usize = 5;

// The signs of the powerups, 5 cells wide and 5 cells high: five groups of
// five bits, one group for each row from the top, the leftmost cell first.
pub const POWERUP_WATER: u32 = 0b10001_10001_10101_10101_01010;
pub const POWERUP_EXPLOSIVE: u32 = 0b11111_10000_11100_10000_11111;
pub const POWERUP_SHOVEL: u32 = 0b10001_10001_11111_10001_10001;
pub const POWERUP_SEED: u32 = 0b01111_10000_01110_00001_11110;
pub const POWERUP_INVINCIBILITY: u32 = 0b11111_00100_00100_00100_11111;

/// The sign of a powerup.
pub open spec fn powerup_code(kind: PowerupType) -> u32 {
    match kind {
        PowerupType::Water => POWERUP_WATER,
        PowerupType::Explosive => POWERUP_EXPLOSIVE,
        PowerupType::Shovel => POWERUP_SHOVEL,
        PowerupType::Seed => POWERUP_SEED,
        PowerupType::Invincibility => POWERUP_INVINCIBILITY,
    }
}

/// Row `dy` of a sign, as a number below 32.
pub open spec fn sign_row(code: u32, dy: int) -> int {
    if dy == 0 {
        (code as int / 0x100000) % 32
    } else if dy == 1 {
        (code as int / 0x8000) % 32
    } else if dy == 2 {
        (code as int / 0x400) % 32
    } else if dy == 3 {
        (code as int / 0x20) % 32
    } else {
        (code as int) % 32
    }
}

/// Whether the cell in column `dx` of row `dy` of a sign is filled.
pub open spec fn sign_cell(code: u32, dx: int, dy: int) -> bool {
    if dx == 0 {
        (sign_row(code, dy) / 16) % 2 == 1
    } else if dx == 1 {
        (sign_row(code, dy) / 8) % 2 == 1
    } else if dx == 2 {
        (sign_row(code, dy) / 4) % 2 == 1
    } else if dx == 3 {
        (sign_row(code, dy) / 2) % 2 == 1
    } else {
        sign_row(code, dy) % 2 == 1
    }
}

/// A sign as rows of cells.
pub open spec fn sign_cells(code: u32) -> Seq<Seq<bool>> {
    Seq::new(5, |dy: int| Seq::new(5, |dx: int| sign_cell(code, dx, dy)))
}

/// Looks up the sign of a powerup.
pub fn powerup_sign(kind: PowerupType) -> (code: u32)
    ensures
        code == powerup_code(kind),
{
    match kind {
        PowerupType::Water => POWERUP_WATER,
        PowerupType::Explosive => POWERUP_EXPLOSIVE,
        PowerupType::Shovel => POWERUP_SHOVEL,
        PowerupType::Seed => POWERUP_SEED,
        PowerupType::Invincibility => POWERUP_INVINCIBILITY,
    }
}

/// Unpacks a sign into rows of cells.
pub fn sign_grid(code: u32) -> (grid: [[bool; 5]; 5])
    ensures
        grid@.len() == 5,
        forall|dy: int| 0 <= dy < 5 ==> (#[trigger] grid@[dy])@ == sign_cells(code)[dy],
{
    let rows: [u32; 5] = [
        (code / 0x100000) % 32,
        (code / 0x8000) % 32,
        (code / 0x400) % 32,
        (code / 0x20) % 32,
        code % 32,
    ];
    let mut grid = [[false; 5]; 5];
    let mut dy: usize = 0;
    while dy < 5
        invariant
            dy <= 5,
            forall|k: int| 0 <= k < 5 ==> #[trigger] rows@[k] == sign_row(code, k),
            forall|k: int| 0 <= k < dy ==> (#[trigger] grid@[k])@ == sign_cells(code)[k],
        decreases 5 - dy,
    {
        let row = rows[dy];
        grid[dy] = [
            (row / 16) % 2 == 1,
            (row / 8) % 2 == 1,
            (row / 4) % 2 == 1,
            (row / 2) % 2 == 1,
            row % 2 == 1,
        ];
        proof {
            assert(grid@[dy as int]@ =~= sign_cells(code)[dy as int]);
        }
        dy += 1;
    }
    grid
}

/// The character of a digit.
pub open spec fn digit_char(d: int) -> char {
    (48 + d) as u8 as char
}

/// The digits of `n` in base ten, the most significant first.
pub open spec fn decimal(n: int) -> Seq<char>
    decreases n,
{
    if n < 10 {
        seq![digit_char(n)]
    } else {
        decimal(n / 10).push(digit_char(n % 10))
    }
}

/// Writes `n` in base ten.
pub fn decimal_digits(n: usize) -> (digits: Vec<char>)
    ensures
        digits@ == decimal(n as int),
        1 <= digits@.len() <= 20,
{
    // The digits from the least significant one up.
    let mut low_first: Vec<char> = Vec::new();
    let mut rest = n;
    while rest >= 10
        invariant
            decimal(n as int) == decimal(rest as int) + low_first@.reverse(),
            low_first@.len() <= 19,
            rest * pow10(low_first@.len() as int) <= usize::MAX,
        decreases rest,
    {
        let digit = ((48 + rest % 10) as u8) as char;
        proof {
            let tail = low_first@;
            assert(tail.push(digit).reverse() =~= seq![digit] + tail.reverse());
            assert(decimal(rest as int) =~= decimal(rest as int / 10) + seq![digit]);
            assert(decimal(rest as int / 10) + seq![digit] + tail.reverse() =~= decimal(rest as int / 10) + (
            seq![digit] + tail.reverse()));
            lemma_pow10_step(rest as int, tail.len() as int);
        }
        low_first.push(digit);
        rest = rest / 10;
    }
    let last = ((48 + rest) as u8) as char;
    proof {
        let tail = low_first@;
        assert(tail.push(last).reverse() =~= seq![last] + tail.reverse());
        assert(decimal(rest as int) =~= seq![last]);
    }
    low_first.push(last);
    let mut digits: Vec<char> = Vec::new();
    let mut i = low_first.len();
    while i > 0
        invariant
            i <= low_first@.len(),
            digits@.len() == low_first@.len() - i,
            forall|k: int| 0 <= k < digits@.len() ==> #[trigger] digits@[k] == low_first@[low_first@.len() - 1 - k],
        decreases i,
    {
        i -= 1;
        digits.push(low_first[i]);
    }
    proof {
        assert(digits@ =~= low_first@.reverse());
    }
    digits
}

/// Ten to the power of `e`.
pub open spec fn pow10(e: int) -> int
    decreases e,
{
    if e <= 0 {
        1
    } else {
        10 * pow10(e - 1)
    }
}

/// Every power of ten is positive.
pub proof fn lemma_pow10_positive(e: int)
    ensures
        0 < pow10(e),
    decreases e,
{
    if e > 0 {
        lemma_pow10_positive(e - 1);
    }
}

/// A number of at least ten with `e` more digits behind it is at least ten
/// to the power of `e + 1`, so a machine number has at most twenty digits.
pub proof fn lemma_pow10_step(rest: int, e: int)
    requires
        10 <= rest,
        0 <= e <= 19,
        rest * pow10(e) <= usize::MAX,
    ensures
        (rest / 10) * pow10(e + 1) <= usize::MAX,
        e + 1 <= 19,
{
    lemma_pow10_positive(e);
    assert(pow10(e + 1) == 10 * pow10(e));
    assert((rest / 10) * (10 * pow10(e)) <= rest * pow10(e)) by (nonlinear_arith)
        requires
            10 <= rest,
            0 < pow10(e),
    ;
    if e == 19 {
        reveal_with_fuel(pow10, 21);
        assert(pow10(19) == 10000000000000000000);
        assert(rest * pow10(19) >= 10 * 10000000000000000000) by (nonlinear_arith)
            requires
                10 <= rest,
                pow10(19) == 10000000000000000000,
        ;
    }
}

} // verus!
