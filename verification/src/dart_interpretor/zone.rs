use vstd::prelude::*;

verus! {

/// Number of sectors around the board.
pub const SECTOR_COUNT: usize = 20;

/// The numbered sectors of a dartboard, clockwise from the top.
pub open spec fn sector_order() -> Seq<u8> {
    seq![20u8, 1, 18, 4, 13, 6, 10, 15, 2, 17, 3, 19, 7, 16, 8, 11, 14, 9, 12, 5]
}

/// Resolves the numbered sector at position `index` clockwise from the top
/// sector (20), wrapping around the board.
pub fn sector_from_index(index: usize) -> (sector: u8)
    ensures
        sector == sector_order()[(index % 20) as int],
        1 <= sector <= 20,
{
    let order: [u8; 20] = [20, 1, 18, 4, 13, 6, 10, 15, 2, 17, 3, 19, 7, 16, 8, 11, 14, 9, 12, 5];
    let i: usize = index % SECTOR_COUNT;
    assert(order@ == sector_order());
    order[i]
}

/// Clockwise from the top, the board's sectors are 20, 1, 18, 4, 13, 6, 10,
/// 15, 2, 17, 3, 19, 7, 16, 8, 11, 14, 9, 12, 5, and the position of a
/// sector wraps around every 20 positions.
pub proof fn lemma_sector_order_is_standard(index: usize)
    ensures
        sector_order()[(index % 20) as int] == seq![
            20u8, 1, 18, 4, 13, 6, 10, 15, 2, 17, 3, 19, 7, 16, 8, 11, 14, 9, 12, 5
        ][(index % 20) as int],
        index + 20 <= usize::MAX ==> sector_order()[((index + 20) % 20) as int] == sector_order()[(
        index % 20) as int],
        sector_order().len() == 20,
{
}

/// Every sector number from 1 to 20 appears exactly once around the board.
pub proof fn lemma_sector_order_is_permutation(sector: u8)
    requires
        1 <= sector <= 20,
    ensures
        exists|i: int| 0 <= i < 20 && sector_order()[i] == sector,
        forall|i: int, j: int|
            0 <= i < 20 && 0 <= j < 20 && sector_order()[i] == sector && sector_order()[j] == sector
                ==> i == j,
{
    let s = sector_order();
    assert(s[0] == 20 && s[1] == 1 && s[2] == 18 && s[3] == 4 && s[4] == 13 && s[5] == 6 && s[6]
        == 10 && s[7] == 15 && s[8] == 2 && s[9] == 17 && s[10] == 3 && s[11] == 19 && s[12] == 7
        && s[13] == 16 && s[14] == 8 && s[15] == 11 && s[16] == 14 && s[17] == 9 && s[18] == 12
        && s[19] == 5);
    let i: int = if sector == 20 { 0 } else if sector == 1 { 1 } else if sector == 18 { 2 } else if sector == 4 { 3 } else if sector == 13 { 4 } else if sector == 6 { 5 } else if sector == 10 { 6 } else if sector == 15 { 7 } else if sector == 2 { 8 } else if sector == 17 { 9 } else if sector == 3 { 10 } else if sector == 19 { 11 } else if sector == 7 { 12 } else if sector == 16 { 13 } else if sector == 8 { 14 } else if sector == 11 { 15 } else if sector == 14 { 16 } else if sector == 9 { 17 } else if sector == 12 { 18 } else { 19 };
    assert(s[i] == sector);
}

} // verus!
