//! The opcode table of the R8, as a Markdown table.
use vstd::prelude::*;

use crate::instructions::{decode, template, InstructionKind};
use crate::text::{hex_digit, hex_digit_char, push_char, push_str, string_from};

verus! {

/// The table's heading row.
pub open spec fn table_heading() -> Seq<char> {
    "| HI/LO | -0 | -1 | -2 | -3 | -4 | -5 | -6 | -7 | -8 | -9 | -A | -B | -C | -D | -E | -F |"@
}

/// The row under the heading.
pub open spec fn table_rule() -> Seq<char> {
    "| :-: | :-: | :-: | :-: | :-: | :-: | :-: | :-: | :-: | :-: | :-: | :-: | :-: | :-: | :-: | :-: | :-: |"@
}

/// The cell for `opcode`: its instruction's template, or `--` if it is not valid.
pub open spec fn opcode_cell(opcode: u8) -> Seq<char> {
    match decode(opcode) {
        Some(ins) => " `"@ + template(ins) + "` |"@,
        None => " `--` |"@,
    }
}

/// The first `n` cells of row `hi`.
pub open spec fn opcode_cells(hi: u8, n: nat) -> Seq<char>
    decreases n,
{
    if n == 0 {
        Seq::empty()
    } else {
        opcode_cells(hi, (n - 1) as nat) + opcode_cell((hi * 16 + n - 1) as u8)
    }
}

/// The row for opcodes `hi`0 to `hi`F.
pub open spec fn opcode_row(hi: u8) -> Seq<char> {
    "| `"@ + seq![hex_digit(hi as int)] + "-` |"@ + opcode_cells(hi, 16)
}

/// The whole table: heading, rule, and a row for each high nibble.
pub open spec fn opcode_table() -> Seq<Seq<char>> {
    seq![table_heading(), table_rule()] + Seq::new(16, |hi: int| opcode_row(hi as u8))
}

/// Returns the opcode table, one line per row.
pub fn opcodes() -> (lines: Vec<String>)
    ensures
        lines@.map_values(|l: String| l@) == opcode_table(),
{
    let mut lines: Vec<String> = Vec::new();
    lines.push(
        string_from(
            "| HI/LO | -0 | -1 | -2 | -3 | -4 | -5 | -6 | -7 | -8 | -9 | -A | -B | -C | -D | -E | -F |",
        ),
    );
    lines.push(
        string_from(
            "| :-: | :-: | :-: | :-: | :-: | :-: | :-: | :-: | :-: | :-: | :-: | :-: | :-: | :-: | :-: | :-: | :-: |",
        ),
    );
    let mut hi: u8 = 0;
    while hi < 16
        invariant
            hi <= 16,
            lines@.map_values(|l: String| l@) == seq![table_heading(), table_rule()] + Seq::new(
                hi as nat,
                |h: int| opcode_row(h as u8),
            ),
        decreases 16 - hi,
    {
        let mut row = string_from("| `");
        push_char(&mut row, hex_digit_char(hi));
        push_str(&mut row, "-` |");
        let ghost prefix = row@;
        assert(prefix =~= "| `"@ + seq![hex_digit(hi as int)] + "-` |"@);
        let mut lo: u8 = 0;
        while lo < 16
            invariant
                hi < 16,
                lo <= 16,
                row@ == prefix + opcode_cells(hi, lo as nat),
            decreases 16 - lo,
        {
            let opcode = hi * 16 + lo;
            match InstructionKind::from_opcode(opcode) {
                Some(ins) => {
                    push_str(&mut row, " `");
                    push_str(&mut row, ins.to_text().as_str());
                    push_str(&mut row, "` |");
                },
                None => push_str(&mut row, " `--` |"),
            }
            lo = lo + 1;
        }
        let ghost before = lines@.map_values(|l: String| l@);
        lines.push(row);
        proof {
            assert(lines@.map_values(|l: String| l@) =~= before.push(row@));
            assert(seq![table_heading(), table_rule()] + Seq::new(
                (hi + 1) as nat,
                |h: int| opcode_row(h as u8),
            ) =~= (seq![table_heading(), table_rule()] + Seq::new(
                hi as nat,
                |h: int| opcode_row(h as u8),
            )).push(opcode_row(hi)));
        }
        hi = hi + 1;
    }
    assert(Seq::new(16, |hi: int| opcode_row(hi as u8)) =~= Seq::new(
        16 as nat,
        |h: int| opcode_row(h as u8),
    ));
    lines
}

} // verus!
