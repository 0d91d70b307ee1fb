use crate::chars::{digit_value, is_digit, is_space, is_whitespace, to_digit};
use crate::error::Error;
use crate::level::{level_in_range, level_of_literal, parse_level};
use crate::pattern::{Grid, MapPattern, MAP_SIZE};
use crate::prefab::Prefab;
use vstd::prelude::*;

verus! {

/// The two states of the reader: between tokens, or inside the parentheses of
/// a height literal.
#[derive(Clone, Copy, Debug, PartialEq, Eq, Structural)]
pub enum Mode {
    Normal,
    InParens,
}

/// What the reader knows after some of the text: the levels and the prefab
/// characters read so far, the number of tokens read, and, inside
/// parentheses, the characters of the literal read so far.
pub ghost struct Scan {
    pub levels: Seq<i8>,
    pub prefabs: Seq<char>,
    pub index: nat,
    pub mode: Mode,
    pub buffer: Seq<char>,
}

impl Scan {
    /// The reader before the first character: every level is 0, every prefab
    /// character is `0`, and no token has been read.
    pub open spec fn start() -> Scan {
        Scan {
            levels: Seq::new(MAP_SIZE as nat, |i: int| 0i8),
            prefabs: Seq::new(MAP_SIZE as nat, |i: int| '0'),
            index: 0,
            mode: Mode::Normal,
            buffer: Seq::empty(),
        }
    }

    /// The reader with `level` as its next token.
    pub open spec fn with_level(self, level: i8) -> Scan {
        Scan {
            levels: self.levels.update(self.index as int, level),
            index: self.index + 1,
            mode: Mode::Normal,
            buffer: Seq::empty(),
            ..self
        }
    }

    /// The reader with the prefab character `c` as its next token.
    pub open spec fn with_prefab(self, c: char) -> Scan {
        Scan {
            prefabs: self.prefabs.update(self.index - MAP_SIZE, c),
            index: self.index + 1,
            ..self
        }
    }

    /// What one character does to the reader.
    ///
    /// Inside parentheses, `)` ends the literal, which must denote a height
    /// level, and every other character, white space too, is added to the
    /// literal. Between tokens white space is passed over. The first 256
    /// tokens are heights: `(` opens a literal, a digit is a height by
    /// itself, and nothing else may stand there. The 256 tokens after them
    /// are prefab characters, taken as they are, parentheses too; there is
    /// no room for more.
    pub open spec fn step(self, c: char) -> Result<Scan, Error> {
        match self.mode {
            Mode::InParens => {
                if c != ')' {
                    Ok(Scan { buffer: self.buffer.push(c), ..self })
                } else {
                    match level_of_literal(self.buffer) {
                        Some(level) => Ok(self.with_level(level)),
                        None => Err(Error::UltraMapParsingError),
                    }
                }
            },
            Mode::Normal => {
                if is_space(c) {
                    Ok(self)
                } else if self.index < MAP_SIZE {
                    if c == '(' {
                        Ok(Scan { mode: Mode::InParens, ..self })
                    } else if is_digit(c) {
                        Ok(self.with_level(digit_value(c) as i8))
                    } else {
                        Err(Error::UltraMapConversionError)
                    }
                } else if self.index < 2 * MAP_SIZE {
                    Ok(self.with_prefab(c))
                } else {
                    Err(Error::UltraMapIndexOutOfBounds)
                }
            },
        }
    }

    /// What a text does to the reader, character by character. The first
    /// character that the reader cannot take ends the reading with its error.
    pub open spec fn run(self, text: Seq<char>) -> Result<Scan, Error>
        decreases text.len(),
    {
        if text.len() == 0 {
            Ok(self)
        } else {
            match self.run(text.drop_last()) {
                Ok(scan) => scan.step(text.last()),
                Err(error) => Err(error),
            }
        }
    }

    /// What holds of the reader at every moment of a reading.
    pub open spec fn inv(self) -> bool {
        &&& self.levels.len() == MAP_SIZE
        &&& self.prefabs.len() == MAP_SIZE
        &&& self.index <= 2 * MAP_SIZE
        &&& self.mode == Mode::InParens ==> self.index < MAP_SIZE
        &&& self.mode == Mode::Normal ==> self.buffer.len() == 0
        &&& forall|i: int| 0 <= i < MAP_SIZE ==> level_in_range(#[trigger] self.levels[i] as int)
        &&& forall|i: int| self.index <= i < MAP_SIZE ==> #[trigger] self.levels[i] == 0
        &&& forall|i: int|
            0 <= i < MAP_SIZE && self.index <= i + MAP_SIZE ==> #[trigger] self.prefabs[i] == '0'
    }
}

/// The reading of a whole text, from the reader's first state.
pub open spec fn scan(text: Seq<char>) -> Result<Scan, Error> {
    Scan::start().run(text)
}

/// The prefabs that a row of prefab characters stands for. One character
/// that stands for no prefab makes the whole row invalid.
pub open spec fn resolve(raw: Seq<char>) -> Result<Seq<Prefab>, Error> {
    if forall|i: int| 0 <= i < raw.len() ==> Prefab::from_char(#[trigger] raw[i]) is Some {
        Ok(Seq::new(raw.len(), |i: int| Prefab::from_char(raw[i])->0))
    } else {
        Err(Error::UltraMapInvalidCharacter)
    }
}

/// The grid that a text stands for, or the reason why it stands for none.
/// The text is read to its end first; the prefab characters collected on
/// the way are resolved after that.
pub open spec fn parse_text(text: Seq<char>) -> Result<Grid, Error> {
    match scan(text) {
        Err(error) => Err(error),
        Ok(scan) => match resolve(scan.prefabs) {
            Err(error) => Err(error),
            Ok(prefabs) => Ok(Grid { levels: scan.levels, prefabs }),
        },
    }
}

/// A step keeps what holds of the reader.
pub proof fn lemma_step_keeps_inv(scan: Scan, c: char)
    requires
        scan.inv(),
    ensures
        scan.step(c) matches Ok(next) ==> next.inv(),
{
}

/// A reading keeps what holds of the reader.
pub proof fn lemma_run_keeps_inv(scan: Scan, text: Seq<char>)
    requires
        scan.inv(),
    ensures
        scan.run(text) matches Ok(last) ==> last.inv(),
    decreases text.len(),
{
    if text.len() > 0 {
        lemma_run_keeps_inv(scan, text.drop_last());
        if let Ok(before) = scan.run(text.drop_last()) {
            lemma_step_keeps_inv(before, text.last());
        }
    }
}

/// Once a reading has failed, more text does not mend it.
pub proof fn lemma_error_stays(scan: Scan, text: Seq<char>, n: int)
    requires
        0 <= n <= text.len(),
        scan.run(text.take(n)) is Err,
    ensures
        scan.run(text) == scan.run(text.take(n)),
    decreases text.len() - n,
{
    if n < text.len() {
        assert(text.take(n + 1).drop_last() == text.take(n));
        lemma_error_stays(scan, text, n + 1);
    } else {
        assert(text.take(n) == text);
    }
}

/// Reading a text in two parts is reading the whole of it.
pub proof fn lemma_run_concat(scan: Scan, first: Seq<char>, rest: Seq<char>)
    ensures
        scan.run(first + rest) == match scan.run(first) {
            Ok(middle) => middle.run(rest),
            Err(error) => Err(error),
        },
    decreases rest.len(),
{
    if rest.len() == 0 {
        assert(first + rest == first);
    } else {
        assert((first + rest).drop_last() == first + rest.drop_last());
        lemma_run_concat(scan, first, rest.drop_last());
    }
}

/// Reading a text of one character is one step.
pub proof fn lemma_run_one(scan: Scan, c: char)
    ensures
        scan.run(seq![c]) == scan.step(c),
{
    assert(seq![c].drop_last() == Seq::<char>::empty());
    assert(scan.run(seq![c].drop_last()) == Ok::<Scan, Error>(scan));
}

/// Between tokens, white space leaves the reader as it is.
pub proof fn lemma_run_spaces(scan: Scan, text: Seq<char>)
    requires
        scan.mode == Mode::Normal,
        forall|i: int| 0 <= i < text.len() ==> is_space(#[trigger] text[i]),
    ensures
        scan.run(text) == Ok::<Scan, Error>(scan),
    decreases text.len(),
{
    if text.len() > 0 {
        lemma_run_spaces(scan, text.drop_last());
    }
}

/// Inside parentheses, a text without `)` is added to the literal as it is.
pub proof fn lemma_run_in_parens(scan: Scan, text: Seq<char>)
    requires
        scan.mode == Mode::InParens,
        forall|i: int| 0 <= i < text.len() ==> #[trigger] text[i] != ')',
    ensures
        scan.run(text) == Ok::<Scan, Error>(Scan { buffer: scan.buffer + text, ..scan }),
    decreases text.len(),
{
    if text.len() == 0 {
        assert(scan.buffer + text == scan.buffer);
    } else {
        lemma_run_in_parens(scan, text.drop_last());
        assert((scan.buffer + text.drop_last()).push(text.last()) == scan.buffer + text);
    }
}

/// The prefabs that the collected prefab characters stand for, or the error
/// of the first character that stands for none.
fn resolve_prefabs(raw: &[char; MAP_SIZE]) -> (result: Result<[Prefab; MAP_SIZE], Error>)
    ensures
        match result {
            Ok(prefab_map) => resolve(raw@) == Ok::<Seq<Prefab>, Error>(prefab_map@),
            Err(error) => resolve(raw@) == Err::<Seq<Prefab>, Error>(error),
        },
{
    let mut prefab_map = [Prefab::Empty; MAP_SIZE];
    let mut i: usize = 0;
    while i < MAP_SIZE
        invariant
            i <= MAP_SIZE,
            forall|j: int| 0 <= j < i ==> Prefab::from_char(#[trigger] raw@[j]) == Some(prefab_map@[j]),
        decreases MAP_SIZE - i,
    {
        match Prefab::try_from(raw[i]) {
            Ok(prefab) => {
                prefab_map[i] = prefab;
            },
            Err(error) => {
                assert(Prefab::from_char(raw@[i as int]) is None);
                return Err(error);
            },
        }
        i += 1;
    }
    assert(prefab_map@ =~= resolve(raw@)->Ok_0);
    Ok(prefab_map)
}

impl MapPattern {
    /// Reads a pattern from its text.
    ///
    /// The text holds up to 256 height tokens and after them up to 256 prefab
    /// characters, with white space between tokens wherever it helps the eye.
    /// A height token is a single digit, or a signed decimal literal between
    /// parentheses whose number is a height level. Cells that the text does
    /// not reach stay at level 0 and hold nothing.
    ///
    /// The reading fails with `UltraMapConversionError` where a height token
    /// is neither a digit nor a parenthesis, with `UltraMapParsingError` where
    /// the text between parentheses is no height level, with
    /// `UltraMapIndexOutOfBounds` where more than 256 prefab characters
    /// follow the heights, and, when the text has been read to its end, with
    /// `UltraMapInvalidCharacter` where a prefab character stands for no
    /// prefab.
    pub fn parse(input: &str) -> (result: Result<MapPattern, Error>)
        ensures
            match result {
                Ok(pattern) => parse_text(input@) == Ok::<Grid, Error>(pattern@) && pattern.wf(),
                Err(error) => parse_text(input@) == Err::<Grid, Error>(error),
            },
    {
        let mut level_map = [0i8; MAP_SIZE];
        let mut raw = ['0'; MAP_SIZE];
        let mut index: usize = 0;
        let mut mode = Mode::Normal;
        let mut buffer: Vec<char> = Vec::new();
        let ghost mut state = Scan::start();
        assert(state.levels =~= level_map@);
        assert(state.prefabs =~= raw@);
        for c in chars: input.chars()
            invariant
                chars.seq() == input@,
                scan(input@.take(chars.index() as int)) == Ok::<Scan, Error>(state),
                state.inv(),
                state.levels == level_map@,
                state.prefabs == raw@,
                state.index == index,
                state.mode == mode,
                state.buffer == buffer@,
        {
            proof {
                let seen = input@.take(chars.index() + 1);
                assert(seen.drop_last() == input@.take(chars.index() as int));
                assert(seen.last() == c);
                assert(scan(seen) == state.step(c));
                lemma_step_keeps_inv(state, c);
                if state.step(c) is Err {
                    lemma_error_stays(Scan::start(), input@, chars.index() + 1);
                }
            }
            match mode {
                Mode::InParens => {
                    if c != ')' {
                        buffer.push(c);
                    } else {
                        match parse_level(buffer.as_slice()) {
                            Some(level) => {
                                level_map[index] = level;
                                index += 1;
                                mode = Mode::Normal;
                                buffer.clear();
                            },
                            None => {
                                return Err(Error::UltraMapParsingError);
                            },
                        }
                    }
                },
                Mode::Normal => {
                    if is_whitespace(c) {
                    } else if index < MAP_SIZE {
                        if c == '(' {
                            mode = Mode::InParens;
                        } else {
                            match to_digit(c) {
                                Some(digit) => {
                                    level_map[index] = digit;
                                    index += 1;
                                },
                                None => {
                                    return Err(Error::UltraMapConversionError);
                                },
                            }
                        }
                    } else if index < 2 * MAP_SIZE {
                        raw[index - MAP_SIZE] = c;
                        index += 1;
                    } else {
                        return Err(Error::UltraMapIndexOutOfBounds);
                    }
                },
            }
            proof {
                state = state.step(c)->Ok_0;
            }
        }
        assert(input@.take(input@.len() as int) == input@);
        match resolve_prefabs(&raw) {
            Ok(prefab_map) => Ok(MapPattern::from_cells(level_map, prefab_map)),
            Err(error) => Err(error),
        }
    }
}

} // verus!
