//! From a text of dots, dashes and spaces to a script of tones and pauses.

use crate::code::is_symbol;
use crate::code::symbol_of;
use crate::code::Instruction;
use crate::code::MorseCode;
use crate::code::MorseError;
use vstd::prelude::*;
use vstd::string::axiom_spec_iter;

verus! {

/// Whether `c` may stand in a text: a symbol, or the space between letters.
pub open spec fn is_text_char(c: char) -> bool {
    is_symbol(c) || c == ' '
}

/// Whether every character of `code` may stand in a text.
pub open spec fn is_text(code: Seq<char>) -> bool {
    forall|i: int| 0 <= i < code.len() ==> is_text_char(#[trigger] code[i])
}

/// The letters of a text: the runs of characters between its spaces, in
/// order. A text without a space is one letter; each space starts a new
/// letter, so a space at either end, or two in a row, give an empty letter.
pub open spec fn letters(code: Seq<char>) -> Seq<Seq<char>>
    decreases code.len(),
{
    if code.len() == 0 {
        seq![Seq::empty()]
    } else {
        let before = letters(code.drop_last());
        if code.last() == ' ' {
            before.push(Seq::empty())
        } else {
            before.drop_last().push(before.last().push(code.last()))
        }
    }
}

/// The script of one letter: a tone for each symbol, and a symbol space
/// between each two tones.
pub open spec fn letter_script(letter: Seq<char>) -> Seq<Instruction>
    decreases letter.len(),
{
    if letter.len() == 0 {
        Seq::empty()
    } else if letter.len() == 1 {
        seq![Instruction::Morse(symbol_of(letter[0]))]
    } else {
        letter_script(letter.drop_last()).push(Instruction::SymbolSpace).push(
            Instruction::Morse(symbol_of(letter.last())),
        )
    }
}

/// The script of a row of letters: the scripts of the letters in order, and
/// a letter space between each two of them.
pub open spec fn script(letters: Seq<Seq<char>>) -> Seq<Instruction>
    decreases letters.len(),
{
    if letters.len() == 0 {
        Seq::empty()
    } else if letters.len() == 1 {
        letter_script(letters[0])
    } else {
        script(letters.drop_last()).push(Instruction::LetterSpace) + letter_script(letters.last())
    }
}

/// A text has at least one letter.
pub proof fn lemma_letters_nonempty(code: Seq<char>)
    ensures
        letters(code).len() >= 1,
    decreases code.len(),
{
    if code.len() > 0 {
        lemma_letters_nonempty(code.drop_last());
    }
}

/// A further empty letter adds one letter space to the script.
proof fn lemma_script_new_letter(letters: Seq<Seq<char>>)
    requires
        letters.len() >= 1,
    ensures
        script(letters.push(Seq::empty())) == script(letters).push(Instruction::LetterSpace),
{
    let more = letters.push(Seq::empty());
    assert(more.drop_last() == letters);
    assert(letter_script(more.last()) == Seq::<Instruction>::empty());
    assert(script(more) == script(letters).push(Instruction::LetterSpace));
}

/// A further symbol in the last letter adds its tone to the script, after a
/// symbol space where the letter already held a symbol.
proof fn lemma_script_new_symbol(letters: Seq<Seq<char>>, c: char)
    requires
        letters.len() >= 1,
    ensures
        script(letters.drop_last().push(letters.last().push(c))) == if letters.last().len() == 0 {
            script(letters).push(Instruction::Morse(symbol_of(c)))
        } else {
            script(letters).push(Instruction::SymbolSpace).push(Instruction::Morse(symbol_of(c)))
        },
{
    let letter = letters.last();
    let longer = letter.push(c);
    let more = letters.drop_last().push(longer);
    assert(longer.drop_last() == letter);
    assert(longer.last() == c);
    assert(more.last() == longer);
    assert(more.drop_last() == letters.drop_last());
    if letter.len() == 0 {
        assert(letter_script(longer) == seq![Instruction::Morse(symbol_of(c))]);
        assert(letter_script(letter) == Seq::<Instruction>::empty());
    } else {
        assert(letter_script(longer) == letter_script(letter).push(Instruction::SymbolSpace).push(
            Instruction::Morse(symbol_of(c)),
        ));
    }
    if letters.len() == 1 {
        assert(more.len() == 1);
        assert(script(letters) == letter_script(letter));
        assert(script(more) == letter_script(longer));
        if letter.len() == 0 {
            assert(script(more) == script(letters).push(Instruction::Morse(symbol_of(c))));
        }
    } else {
        let head = script(letters.drop_last()).push(Instruction::LetterSpace);
        assert(script(letters) == head + letter_script(letter));
        assert(script(more) == head + letter_script(longer));
        if letter.len() == 0 {
            assert(script(more) == script(letters).push(Instruction::Morse(symbol_of(c))));
        } else {
            assert(script(more) == script(letters).push(Instruction::SymbolSpace).push(
                Instruction::Morse(symbol_of(c)),
            ));
        }
    }
}

/// The letters put together again, with one space between each two.
pub open spec fn joined(letters: Seq<Seq<char>>) -> Seq<char>
    decreases letters.len(),
{
    if letters.len() == 0 {
        Seq::empty()
    } else if letters.len() == 1 {
        letters[0]
    } else {
        joined(letters.drop_last()).push(' ') + letters.last()
    }
}

/// Whether no letter of the row is empty. A text is built as Morse code
/// asks when it holds symbols and spaces only and none of its letters is
/// empty: it is not empty, has no space at either end and no two in a row.
pub open spec fn all_letters_sound(letters: Seq<Seq<char>>) -> bool {
    forall|i: int| 0 <= i < letters.len() ==> (#[trigger] letters[i]).len() >= 1
}

/// What the letters add to the length of a script, the letter spaces left
/// out: for each letter twice the number of its symbols, less one.
pub open spec fn tones_and_symbol_spaces(letters: Seq<Seq<char>>) -> int
    decreases letters.len(),
{
    if letters.len() == 0 {
        0
    } else {
        tones_and_symbol_spaces(letters.drop_last()) + 2 * letters.last().len() - 1
    }
}

/// Whether no letter of the row holds a space.
pub open spec fn no_letter_has_space(letters: Seq<Seq<char>>) -> bool {
    forall|i: int, j: int|
        0 <= i < letters.len() && 0 <= j < letters[i].len() ==> letters[i][j] != ' '
}

/// The letters are a split of the text at its spaces: no letter holds a
/// space, and joined by single spaces they give the text back.
pub proof fn lemma_letters_split(code: Seq<char>)
    ensures
        joined(letters(code)) == code,
        no_letter_has_space(letters(code)),
    decreases code.len(),
{
    if code.len() == 0 {
        assert(joined(letters(code)) == code);
    } else {
        let shorter = code.drop_last();
        let c = code.last();
        let before = letters(shorter);
        lemma_letters_split(shorter);
        lemma_letters_nonempty(shorter);
        assert(code == shorter.push(c));
        if c == ' ' {
            let after = before.push(Seq::empty());
            assert(after.drop_last() == before);
            assert(joined(after) == joined(before).push(' ') + Seq::<char>::empty());
            assert(joined(after) == code);
        } else {
            let longer = before.last().push(c);
            let after = before.drop_last().push(longer);
            assert(after.last() == longer);
            assert(after.drop_last() == before.drop_last());
            if before.len() == 1 {
                assert(joined(after) == code);
            } else {
                let head = joined(before.drop_last()).push(' ');
                assert(joined(before) == head + before.last());
                assert(joined(after) == head + longer);
                assert(head + longer == (head + before.last()).push(c));
                assert(joined(after) == code);
            }
            assert forall|i: int, j: int|
                0 <= i < after.len() && 0 <= j < after[i].len() implies after[i][j] != ' ' by {
                if i < after.len() - 1 {
                    assert(after[i] == before[i]);
                } else if j < before.last().len() {
                    assert(after[i][j] == before[before.len() - 1][j]);
                }
            }
        }
    }
}

/// Characters other than the space, put after a text, lengthen its last
/// letter and leave the others as they are.
proof fn lemma_letters_append(code: Seq<char>, tail: Seq<char>)
    requires
        forall|j: int| 0 <= j < tail.len() ==> tail[j] != ' ',
    ensures
        letters(code + tail) == letters(code).drop_last().push(letters(code).last() + tail),
    decreases tail.len(),
{
    let row = letters(code);
    lemma_letters_nonempty(code);
    if tail.len() == 0 {
        assert(code + tail == code);
        assert(row.last() + tail == row.last());
        assert(row.drop_last().push(row.last()) == row);
    } else {
        let shorter = tail.drop_last();
        let whole = code + tail;
        lemma_letters_append(code, shorter);
        assert(whole.drop_last() == code + shorter);
        assert(whole.last() == tail.last());
        let before = letters(code + shorter);
        assert(before.drop_last() == row.drop_last());
        assert(before.last() == row.last() + shorter);
        assert((row.last() + shorter).push(tail.last()) == row.last() + tail);
    }
}

/// It is the only split: a row of at least one letter, none of which holds
/// a space, is the letters of the text that it joins to. So two such rows
/// that join to the same text are the same row.
pub proof fn lemma_letters_unique(row: Seq<Seq<char>>)
    requires
        row.len() >= 1,
        no_letter_has_space(row),
    ensures
        letters(joined(row)) == row,
    decreases row.len(),
{
    let last = row.last();
    assert forall|j: int| 0 <= j < last.len() implies last[j] != ' ' by {
        assert(row[row.len() - 1][j] != ' ');
    }
    if row.len() == 1 {
        let nothing = Seq::<char>::empty();
        lemma_letters_append(nothing, last);
        assert(nothing + last == last);
        assert(letters(nothing) == seq![nothing]);
        assert(seq![nothing].drop_last().push(nothing + last) == row);
    } else {
        let shorter = row.drop_last();
        assert forall|i: int, j: int|
            0 <= i < shorter.len() && 0 <= j < shorter[i].len() implies shorter[i][j] != ' ' by {
            assert(shorter[i] == row[i]);
        }
        lemma_letters_unique(shorter);
        let head = joined(shorter).push(' ');
        assert(head.drop_last() == joined(shorter));
        assert(letters(head) == shorter.push(Seq::empty()));
        lemma_letters_append(head, last);
        assert(Seq::<char>::empty() + last == last);
        assert(shorter.push(Seq::empty()).drop_last() == shorter);
        assert(shorter.push(last) == row);
    }
}

/// A letter of n symbols has a script of 2n - 1 instructions, and the
/// empty letter an empty one.
pub proof fn lemma_letter_script_len(letter: Seq<char>)
    ensures
        letter_script(letter).len() == if letter.len() == 0 {
            0
        } else {
            2 * letter.len() - 1
        },
    decreases letter.len(),
{
    if letter.len() > 1 {
        lemma_letter_script_len(letter.drop_last());
    }
}

/// The length of a script: where no letter is empty, it is the sum over the
/// letters of twice the number of symbols less one, and one letter space
/// for each letter but the last.
pub proof fn lemma_script_len(letters: Seq<Seq<char>>)
    requires
        letters.len() >= 1,
        all_letters_sound(letters),
    ensures
        script(letters).len() == tones_and_symbol_spaces(letters) + (letters.len() - 1),
    decreases letters.len(),
{
    lemma_letter_script_len(letters.last());
    if letters.len() == 1 {
        assert(letters.drop_last().len() == 0);
        assert(tones_and_symbol_spaces(letters.drop_last()) == 0);
    } else {
        let shorter = letters.drop_last();
        assert forall|i: int| 0 <= i < shorter.len() implies (#[trigger] shorter[i]).len()
            >= 1 by {
            assert(shorter[i] == letters[i]);
        }
        lemma_script_len(shorter);
    }
}

/// The same of a text: the number of instructions in its script, where none
/// of its letters is empty.
pub proof fn lemma_instruction_count(code: Seq<char>)
    requires
        all_letters_sound(letters(code)),
    ensures
        script(letters(code)).len() == tones_and_symbol_spaces(letters(code)) + (letters(
            code,
        ).len() - 1),
{
    lemma_letters_nonempty(code);
    lemma_script_len(letters(code));
}

/// The script of a letter that is not empty begins and ends with a tone.
pub proof fn lemma_letter_script_ends(letter: Seq<char>)
    requires
        letter.len() >= 1,
    ensures
        letter_script(letter).len() >= 1,
        letter_script(letter).first() is Morse,
        letter_script(letter).last() is Morse,
    decreases letter.len(),
{
    if letter.len() > 1 {
        lemma_letter_script_ends(letter.drop_last());
    }
}

/// Where no letter is empty, the script begins and ends with a tone, never
/// with a pause.
pub proof fn lemma_script_ends(letters: Seq<Seq<char>>)
    requires
        letters.len() >= 1,
        all_letters_sound(letters),
    ensures
        script(letters).len() >= 1,
        script(letters).first() is Morse,
        script(letters).last() is Morse,
    decreases letters.len(),
{
    lemma_letter_script_ends(letters.last());
    if letters.len() > 1 {
        let shorter = letters.drop_last();
        assert forall|i: int| 0 <= i < shorter.len() implies (#[trigger] shorter[i]).len()
            >= 1 by {
            assert(shorter[i] == letters[i]);
        }
        lemma_script_ends(shorter);
    }
}

/// No script of a row of letters holds a word space.
pub proof fn lemma_script_has_no_word_space(letters: Seq<Seq<char>>)
    ensures
        forall|i: int|
            0 <= i < script(letters).len() ==> #[trigger] script(letters)[i]
                != Instruction::WordSpace,
    decreases letters.len(),
{
    if letters.len() >= 1 {
        lemma_letter_script_has_no_word_space(letters.last());
        if letters.len() > 1 {
            lemma_script_has_no_word_space(letters.drop_last());
        }
    }
}

/// No script of a letter holds a word space.
proof fn lemma_letter_script_has_no_word_space(letter: Seq<char>)
    ensures
        forall|i: int|
            0 <= i < letter_script(letter).len() ==> #[trigger] letter_script(letter)[i]
                != Instruction::WordSpace,
    decreases letter.len(),
{
    if letter.len() > 1 {
        lemma_letter_script_has_no_word_space(letter.drop_last());
    }
}

/// Whether `e` names the first character of `code` that may not stand in a
/// text, and its place.
pub open spec fn names_first_invalid(code: Seq<char>, e: MorseError) -> bool {
    match e {
        MorseError::InvalidSymbol { symbol, position } => {
            &&& position < code.len()
            &&& symbol == code[position as int]
            &&& !is_text_char(symbol)
            &&& is_text(code.take(position as int))
        },
        _ => false,
    }
}

/// Turns a text into its script.
///
/// The text is split at its spaces into letters. Each symbol of a letter
/// becomes a tone, with a symbol space between two tones of one letter and a
/// letter space between two letters. A text that holds any other character
/// gives no script: the error names the first such character and its place.
pub fn parse_morse_code(code: &str) -> (r: Result<Vec<Instruction>, MorseError>)
    ensures
        r is Ok <==> is_text(code@),
        match r {
            Ok(instructions) => instructions@ == script(letters(code@)),
            Err(e) => names_first_invalid(code@, e),
        },
{
    broadcast use axiom_spec_iter;

    let length: usize = code.unicode_len();
    let mut instructions: Vec<Instruction> = Vec::new();
    let mut in_letter: bool = false;
    let mut position: usize = 0;
    proof {
        assert(code@.take(0) == Seq::<char>::empty());
        assert(script(letters(Seq::<char>::empty())) == Seq::<Instruction>::empty());
    }
    for c in chars: code.chars()
        invariant
            chars.seq() == code@,
            length == code@.len(),
            position == chars.index(),
            is_text(code@.take(position as int)),
            instructions@ == script(letters(code@.take(position as int))),
            in_letter == (letters(code@.take(position as int)).last().len() > 0),
    {
        let ghost before = code@.take(position as int);
        let ghost after = code@.take(position + 1);
        proof {
            assert(after.drop_last() == before);
            assert(after.last() == c);
            lemma_letters_nonempty(before);
        }
        if c == ' ' {
            proof {
                lemma_script_new_letter(letters(before));
            }
            instructions.push(Instruction::LetterSpace);
            in_letter = false;
        } else {
            match MorseCode::try_from(c) {
                Ok(symbol) => {
                    proof {
                        lemma_script_new_symbol(letters(before), c);
                    }
                    if in_letter {
                        instructions.push(Instruction::SymbolSpace);
                    }
                    instructions.push(Instruction::from(symbol));
                    in_letter = true;
                },
                Err(_) => {
                    return Err(MorseError::InvalidSymbol { symbol: c, position });
                },
            }
        }
        position = position + 1;
    }
    proof {
        assert(code@.take(position as int) == code@);
    }
    Ok(instructions)
}

} // verus!
