use vstd::prelude::*;

use vstd::arithmetic::div_mod::lemma_fundamental_div_mod_converse;

use crate::Chip8;

verus! {

/// The character that shows a pixel: a filled square when on, a space when off.
pub open spec fn pixel_char(on: bool) -> char {
    if on {
        '\u{25A0}'
    } else {
        ' '
    }
}

/// The display as text: 32 lines of 64 pixel characters, each line ended by a newline.
pub open spec fn display_text_spec(display: Seq<bool>) -> Seq<char> {
    Seq::new(
        32 * 65,
        |t: int|
            if t % 65 == 64 {
                '\n'
            } else {
                pixel_char(display[(t / 65) * 64 + t % 65])
            },
    )
}

impl Chip8 {
    /// The display as text, one line per display row.
    pub fn display_text(&self) -> (text: Vec<char>)
        ensures
            text@ == display_text_spec(self.display@),
    {
        let ghost target = display_text_spec(self.display@);
        let mut text: Vec<char> = Vec::new();
        let mut i: usize = 0;
        while i < 32
            invariant
                i <= 32,
                target == display_text_spec(self.display@),
                text@ == target.take(65 * i),
            decreases 32 - i,
        {
            let mut j: usize = 0;
            while j < 64
                invariant
                    i < 32,
                    j <= 64,
                    target == display_text_spec(self.display@),
                    text@ == target.take(65 * i + j),
                decreases 64 - j,
            {
                let pixel = if self.display[64 * i + j] {
                    '\u{25A0}'
                } else {
                    ' '
                };
                proof {
                    lemma_fundamental_div_mod_converse(65 * i + j, 65, i as int, j as int);
                }
                text.push(pixel);
                assert(text@ =~= target.take(65 * i + j + 1));
                j = j + 1;
            }
            proof {
                lemma_fundamental_div_mod_converse(65 * i + 64, 65, i as int, 64);
            }
            text.push('\n');
            assert(text@ =~= target.take(65 * (i + 1)));
            i = i + 1;
        }
        assert(target.take(65 * 32int) =~= target);
        text
    }
}

} // verus!
