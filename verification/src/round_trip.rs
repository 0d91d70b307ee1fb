use crate::chars::{digit_char, is_digit, is_space};
use crate::error::Error;
use crate::level::{
    decimal, decimal_digits, lemma_decimal_digits, lemma_level_round_trip,
    lemma_single_character_literals, level_in_range, level_token,
};
use crate::parse::{
    lemma_run_concat, lemma_run_in_parens, lemma_run_keeps_inv, lemma_run_one, lemma_run_spaces,
    parse_text, resolve, scan, Mode, Scan,
};
use crate::pattern::{Grid, MAP_SIZE};
use crate::prefab::Prefab;
use crate::serialize::{levels_text, pattern_text, prefabs_text, row_break};
use vstd::prelude::*;

verus! {

/// The reader after the tokens of the first `n` height levels of a grid.
pub open spec fn levels_read(grid: Grid, n: nat) -> Scan {
    Scan {
        levels: Seq::new(
            MAP_SIZE as nat,
            |i: int|
                if i < n {
                    grid.levels[i]
                } else {
                    0i8
                },
        ),
        index: n,
        ..Scan::start()
    }
}

/// The reader after the tokens of all the height levels and of the first `n`
/// prefabs of a grid.
pub open spec fn prefabs_read(grid: Grid, n: nat) -> Scan {
    Scan {
        prefabs: Seq::new(
            MAP_SIZE as nat,
            |i: int|
                if i < n {
                    grid.prefabs[i].to_char()
                } else {
                    '0'
                },
        ),
        index: MAP_SIZE as nat + n,
        ..levels_read(grid, MAP_SIZE as nat)
    }
}

/// No decimal literal holds a closing parenthesis.
proof fn lemma_decimal_has_no_parenthesis(value: int)
    ensures
        forall|i: int| 0 <= i < decimal(value).len() ==> #[trigger] decimal(value)[i] != ')',
{
    let literal = decimal(value);
    if value < 0 {
        let digits = decimal_digits((-value) as nat);
        lemma_decimal_digits((-value) as nat);
        assert forall|i: int| 0 <= i < literal.len() implies #[trigger] literal[i] != ')' by {
            if i > 0 {
                assert(literal[i] == digits[i - 1]);
                assert(is_digit(digits[i - 1]));
            }
        }
    } else {
        lemma_decimal_digits(value as nat);
        assert forall|i: int| 0 <= i < literal.len() implies #[trigger] literal[i] != ')' by {
            assert(is_digit(literal[i]));
        }
    }
}

/// Between tokens, the token of a height level is read as that level.
proof fn lemma_level_token_reads(scan: Scan, level: i8)
    requires
        scan.mode == Mode::Normal,
        scan.buffer.len() == 0,
        scan.index < MAP_SIZE,
        level_in_range(level as int),
    ensures
        scan.run(level_token(level)) == Ok::<Scan, Error>(scan.with_level(level)),
{
    let literal = decimal(level as int);
    lemma_single_character_literals(level as int);
    if 0 <= level <= 9 {
        let c = digit_char(level as int);
        assert(level_token(level) == seq![c]);
        lemma_run_one(scan, c);
        assert(scan.step(c) == Ok::<Scan, Error>(scan.with_level(level)));
    } else {
        let opened = Scan { mode: Mode::InParens, ..scan };
        let filled = Scan { buffer: literal, ..opened };
        assert(scan.buffer + literal == literal);
        lemma_run_one(scan, '(');
        assert(scan.run(seq!['(']) == Ok::<Scan, Error>(opened));
        lemma_decimal_has_no_parenthesis(level as int);
        lemma_run_in_parens(opened, literal);
        assert(opened.run(literal) == Ok::<Scan, Error>(filled));
        lemma_run_one(filled, ')');
        lemma_level_round_trip(level);
        assert(filled.run(seq![')']) == Ok::<Scan, Error>(scan.with_level(level)));
        lemma_run_concat(scan, seq!['('], literal);
        lemma_run_concat(scan, seq!['('] + literal, seq![')']);
    }
}

/// What is written before a token is white space, if it is anything.
proof fn lemma_row_break_is_passed(scan: Scan, i: int)
    requires
        scan.mode == Mode::Normal,
    ensures
        scan.run(row_break(i)) == Ok::<Scan, Error>(scan),
{
    lemma_run_spaces(scan, row_break(i));
}

/// Reading the text of the first `n` height levels of a grid gives those
/// levels.
proof fn lemma_levels_text_reads(grid: Grid, n: nat)
    requires
        grid.complete(),
        grid.levels_in_range(),
        n <= MAP_SIZE,
    ensures
        scan(levels_text(grid.levels, n)) == Ok::<Scan, Error>(levels_read(grid, n)),
    decreases n,
{
    if n == 0 {
        assert(levels_read(grid, 0).levels =~= Scan::start().levels);
    } else {
        let m = (n - 1) as nat;
        let before = levels_read(grid, m);
        let level = grid.levels[m as int];
        let head = levels_text(grid.levels, m);
        lemma_levels_text_reads(grid, m);
        lemma_row_break_is_passed(before, m as int);
        lemma_level_token_reads(before, level);
        lemma_run_concat(Scan::start(), head, row_break(m as int));
        lemma_run_concat(Scan::start(), head + row_break(m as int), level_token(level));
        assert(before.with_level(level).levels =~= levels_read(grid, n).levels);
    }
}

/// Reading the text of the first `n` prefabs of a grid, after the text of
/// its height levels, gives those prefabs' characters.
proof fn lemma_prefabs_text_reads(grid: Grid, n: nat)
    requires
        grid.complete(),
        n <= MAP_SIZE,
    ensures
        levels_read(grid, MAP_SIZE as nat).run(prefabs_text(grid.prefabs, n)) == Ok::<Scan, Error>(
            prefabs_read(grid, n),
        ),
    decreases n,
{
    let start = levels_read(grid, MAP_SIZE as nat);
    if n == 0 {
        assert(prefabs_read(grid, 0).prefabs =~= start.prefabs);
    } else {
        let m = (n - 1) as nat;
        let before = prefabs_read(grid, m);
        let c = grid.prefabs[m as int].to_char();
        let head = prefabs_text(grid.prefabs, m);
        lemma_prefabs_text_reads(grid, m);
        lemma_row_break_is_passed(before, m as int);
        lemma_run_one(before, c);
        assert(!is_space(c));
        lemma_run_concat(start, head, row_break(m as int));
        lemma_run_concat(start, head + row_break(m as int), seq![c]);
        assert(before.with_prefab(c).prefabs =~= prefabs_read(grid, n).prefabs);
    }
}

/// Reading the text of a grid gives the grid back: for every grid that has
/// its 256 cells, each at a height level between `MIN_LEVEL` and `MAX_LEVEL`,
/// the text that `get_map_raw` writes is a text that `parse` reads as that
/// same grid.
pub proof fn lemma_parse_inverts_text(grid: Grid)
    requires
        grid.complete(),
        grid.levels_in_range(),
    ensures
        parse_text(pattern_text(grid)) == Ok::<Grid, Error>(grid),
{
    let size = MAP_SIZE as nat;
    let levels = levels_text(grid.levels, size);
    let prefabs = prefabs_text(grid.prefabs, size);
    let middle = levels_read(grid, size);
    let last = prefabs_read(grid, size);
    lemma_levels_text_reads(grid, size);
    lemma_run_spaces(middle, seq!['\n', '\n']);
    lemma_run_concat(Scan::start(), levels, seq!['\n', '\n']);
    assert(middle == prefabs_read(grid, 0)) by {
        assert(prefabs_read(grid, 0).prefabs =~= middle.prefabs);
    }
    lemma_prefabs_text_reads(grid, size);
    lemma_run_concat(Scan::start(), levels + seq!['\n', '\n'], prefabs);
    lemma_run_spaces(last, seq!['\n']);
    lemma_run_concat(Scan::start(), levels + seq!['\n', '\n'] + prefabs, seq!['\n']);
    assert(scan(pattern_text(grid)) == Ok::<Scan, Error>(last));
    assert(last.levels =~= grid.levels);
    assert forall|i: int| 0 <= i < last.prefabs.len() implies Prefab::from_char(
        #[trigger] last.prefabs[i],
    ) == Some(grid.prefabs[i]) by {
        grid.prefabs[i].lemma_char_round_trip();
    }
    assert(resolve(last.prefabs)->Ok_0 =~= grid.prefabs);
}

/// Cells that a text does not reach stay as they were before the reading,
/// at level 0 and empty: a text that ends early is no error. Where the text
/// ends among the height tokens, every prefab is `Empty`.
pub proof fn lemma_unreached_cells_stay_blank(text: Seq<char>)
    ensures
        scan(text) matches Ok(end) ==> {
            &&& forall|i: int| end.index <= i < MAP_SIZE ==> #[trigger] end.levels[i] == 0
            &&& forall|i: int|
                0 <= i < MAP_SIZE && end.index <= i + MAP_SIZE ==> #[trigger] end.prefabs[i] == '0'
            &&& end.index <= MAP_SIZE ==> parse_text(text) == Ok::<Grid, Error>(
                Grid { levels: end.levels, prefabs: Grid::blank().prefabs },
            )
        },
{
    lemma_run_keeps_inv(Scan::start(), text);
    if let Ok(end) = scan(text) {
        if end.index <= MAP_SIZE {
            assert(resolve(end.prefabs)->Ok_0 =~= Grid::blank().prefabs);
        }
    }
}

/// Every grid that a text stands for is a valid one: it has its 256 cells,
/// each at a height level between `MIN_LEVEL` and `MAX_LEVEL`.
pub proof fn lemma_parsed_grid_is_valid(text: Seq<char>)
    ensures
        parse_text(text) matches Ok(grid) ==> grid.complete() && grid.levels_in_range(),
{
    lemma_run_keeps_inv(Scan::start(), text);
}

} // verus!
