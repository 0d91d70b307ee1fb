use crate::level::{level_token, push_level_token};
use crate::pattern::{Grid, MapPattern, MAP_SIDE, MAP_SIZE};
use crate::prefab::Prefab;
use vstd::prelude::*;

verus! {

/// What is written before the token of cell `i`: a line break where the
/// cell begins a row other than the first, and else nothing.
pub open spec fn row_break(i: int) -> Seq<char> {
    if i % (MAP_SIDE as int) == 0 && i > 0 {
        seq!['\n']
    } else {
        Seq::empty()
    }
}

/// The text of the first `n` height levels: one token for each, sixteen
/// tokens to the line.
pub open spec fn levels_text(levels: Seq<i8>, n: nat) -> Seq<char>
    decreases n,
{
    if n == 0 {
        Seq::empty()
    } else {
        levels_text(levels, (n - 1) as nat) + row_break(n - 1) + level_token(levels[n - 1])
    }
}

/// The text of the first `n` prefabs: one character for each, sixteen
/// characters to the line.
pub open spec fn prefabs_text(prefabs: Seq<Prefab>, n: nat) -> Seq<char>
    decreases n,
{
    if n == 0 {
        Seq::empty()
    } else {
        prefabs_text(prefabs, (n - 1) as nat) + row_break(n - 1) + seq![prefabs[n - 1].to_char()]
    }
}

/// The text of a grid: the sixteen lines of its height levels, an empty
/// line, and the sixteen lines of its prefabs, each line ended by a line
/// break.
pub open spec fn pattern_text(grid: Grid) -> Seq<char> {
    levels_text(grid.levels, MAP_SIZE as nat) + seq!['\n', '\n'] + prefabs_text(
        grid.prefabs,
        MAP_SIZE as nat,
    ) + seq!['\n']
}

/// The extension of the files that hold a pattern.
pub open spec fn extension() -> Seq<char> {
    seq!['.', 'c', 'g', 'p']
}

impl MapPattern {
    /// The text of the pattern, as `parse` reads it: the height levels in
    /// sixteen lines of sixteen tokens, an empty line, and the prefabs in
    /// sixteen lines of sixteen characters. A level from 0 to 9 is written
    /// as its digit, every other level as its decimal literal between
    /// parentheses.
    pub fn get_map_raw(&self) -> (text: String)
        ensures
            text@ == pattern_text(self@),
    {
        let levels = self.get_level_map();
        let prefabs = self.get_prefab_map();
        proof {
            self.lemma_complete();
        }
        let mut text = String::new();
        let mut i: usize = 0;
        while i < MAP_SIZE
            invariant
                i <= MAP_SIZE,
                levels@.len() == MAP_SIZE,
                text@ == levels_text(levels@, i as nat),
            decreases MAP_SIZE - i,
        {
            if i % MAP_SIDE == 0 && i > 0 {
                text.push('\n');
            }
            assert(text@ == levels_text(levels@, i as nat) + row_break(i as int));
            push_level_token(&mut text, levels[i]);
            i += 1;
        }
        text.push('\n');
        text.push('\n');
        let ghost head = levels_text(levels@, MAP_SIZE as nat) + seq!['\n', '\n'];
        assert(text@ == head);
        let mut i: usize = 0;
        while i < MAP_SIZE
            invariant
                i <= MAP_SIZE,
                prefabs@.len() == MAP_SIZE,
                text@ == head + prefabs_text(prefabs@, i as nat),
            decreases MAP_SIZE - i,
        {
            if i % MAP_SIDE == 0 && i > 0 {
                text.push('\n');
            }
            assert(text@ == head + (prefabs_text(prefabs@, i as nat) + row_break(i as int)));
            text.push(Prefab::match_char(&prefabs[i]));
            assert(text@ == head + prefabs_text(prefabs@, (i + 1) as nat));
            i += 1;
        }
        text.push('\n');
        text
    }

    /// The name of the file that holds the pattern called `name`: the name
    /// with the extension `.cgp`.
    pub fn file_name(name: &str) -> (path: String)
        ensures
            path@ == name@ + extension(),
    {
        let mut path = name.to_owned();
        path.push('.');
        path.push('c');
        path.push('g');
        path.push('p');
        assert(path@ == name@ + extension());
        path
    }
}

} // verus!
