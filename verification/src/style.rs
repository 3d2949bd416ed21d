//! Styled projection of a pane: colors, cursor shapes and style runs.
use vstd::prelude::*;
use vstd::string::*;

verus! {

/// Wire cursor shape.
#[derive(Debug, Clone, Copy, PartialEq, Eq, Structural)]
pub enum CursorShapeWire {
    Block,
    Underline,
    Bar,
}

/// Cursor shape as the emulator keeps it.
#[derive(Debug, Clone, Copy, PartialEq, Eq, Structural)]
pub enum CursorShape {
    Block,
    Underline,
    Bar,
}

impl CursorShapeWire {
    pub fn from_emulator(shape: CursorShape) -> (r: Self)
        ensures
            shape is Block <==> r is Block,
            shape is Underline <==> r is Underline,
            shape is Bar <==> r is Bar,
    {
        match shape {
            CursorShape::Block => CursorShapeWire::Block,
            CursorShape::Underline => CursorShapeWire::Underline,
            CursorShape::Bar => CursorShapeWire::Bar,
        }
    }

    /// Parameter of the steady cursor-style sequence.
    pub open spec fn spec_parameter(self) -> u8 {
        match self {
            CursorShapeWire::Block => 0x32,
            CursorShapeWire::Underline => 0x34,
            CursorShapeWire::Bar => 0x36,
        }
    }

    /// Steady `CSI Ps SP q` for the outer terminal.
    pub fn decscusr_bytes(self) -> (r: [u8; 5])
        ensures
            r@ == seq![0x1bu8, 0x5bu8, self.spec_parameter(), 0x20u8, 0x71u8],
    {
        let parameter: u8 = match self {
            CursorShapeWire::Block => 0x32,
            CursorShapeWire::Underline => 0x34,
            CursorShapeWire::Bar => 0x36,
        };
        let r: [u8; 5] = [0x1b, 0x5b, parameter, 0x20, 0x71];
        assert(r@ =~= seq![0x1bu8, 0x5bu8, self.spec_parameter(), 0x20u8, 0x71u8]);
        r
    }
}

/// Wire color for styled attach.
#[derive(Debug, Clone, Copy, PartialEq, Eq, Structural)]
pub enum ColorWire {
    Default,
    Ansi { n: u8 },
    Indexed { n: u8 },
    Rgb { r: u8, g: u8, b: u8 },
}

/// Color as the screen model keeps it.
#[derive(Debug, Clone, Copy, PartialEq, Eq, Structural)]
pub enum Color {
    Default,
    Ansi(u8),
    Indexed(u8),
    Rgb { r: u8, g: u8, b: u8 },
}

impl ColorWire {
    pub fn is_default(&self) -> (r: bool)
        ensures
            r == (*self is Default),
    {
        match self {
            ColorWire::Default => true,
            _ => false,
        }
    }

    pub open spec fn spec_from_core(color: Color) -> ColorWire {
        match color {
            Color::Default => ColorWire::Default,
            Color::Ansi(n) => ColorWire::Ansi { n },
            Color::Indexed(n) => ColorWire::Indexed { n },
            Color::Rgb { r, g, b } => ColorWire::Rgb { r, g, b },
        }
    }

    pub fn from_core(color: Color) -> (c: Self)
        ensures
            c == Self::spec_from_core(color),
    {
        match color {
            Color::Default => ColorWire::Default,
            Color::Ansi(n) => ColorWire::Ansi { n },
            Color::Indexed(n) => ColorWire::Indexed { n },
            Color::Rgb { r, g, b } => ColorWire::Rgb { r, g, b },
        }
    }
}

/// What distinguishes one style run from the next.
#[derive(Debug, Clone, Copy, PartialEq, Eq, Structural)]
pub struct StyleKey {
    pub bold: bool,
    pub italic: bool,
    pub underline: bool,
    pub inverse: bool,
    pub fg: ColorWire,
    pub bg: ColorWire,
}

/// One grid cell: its grapheme, its style, and whether it continues a wide one.
#[derive(Debug, PartialEq, Eq)]
pub struct StyledCell {
    pub grapheme: String,
    pub wide_cont: bool,
    pub bold: bool,
    pub italic: bool,
    pub underline: bool,
    pub inverse: bool,
    pub foreground: Color,
    pub background: Color,
}

impl StyledCell {
    pub open spec fn spec_key(self) -> StyleKey {
        StyleKey {
            bold: self.bold,
            italic: self.italic,
            underline: self.underline,
            inverse: self.inverse,
            fg: ColorWire::spec_from_core(self.foreground),
            bg: ColorWire::spec_from_core(self.background),
        }
    }

    /// Whether the cell shows anything of its own.
    pub open spec fn shows(self) -> bool {
        !self.wide_cont && self.grapheme@.len() > 0
    }
}

/// One run of identically styled text on a visible row.
#[derive(Debug, PartialEq, Eq)]
pub struct StyleRun {
    pub text: String,
    pub bold: bool,
    pub italic: bool,
    pub underline: bool,
    pub inverse: bool,
    pub fg: ColorWire,
    pub bg: ColorWire,
}

impl StyleRun {
    pub open spec fn spec_key(self) -> StyleKey {
        StyleKey {
            bold: self.bold,
            italic: self.italic,
            underline: self.underline,
            inverse: self.inverse,
            fg: self.fg,
            bg: self.bg,
        }
    }

    pub fn key(&self) -> (k: StyleKey)
        ensures
            k == self.spec_key(),
    {
        StyleKey {
            bold: self.bold,
            italic: self.italic,
            underline: self.underline,
            inverse: self.inverse,
            fg: self.fg,
            bg: self.bg,
        }
    }

    /// The run that one cell makes on its own.
    pub fn from_cell(cell: &StyledCell) -> (r: Self)
        ensures
            r.text@ == cell.grapheme@,
            r.spec_key() == cell.spec_key(),
    {
        StyleRun {
            text: cell.grapheme.clone(),
            bold: cell.bold,
            italic: cell.italic,
            underline: cell.underline,
            inverse: cell.inverse,
            fg: ColorWire::from_core(cell.foreground),
            bg: ColorWire::from_core(cell.background),
        }
    }

    /// Unstyled text.
    pub fn plain(text: &str) -> (r: Self)
        ensures
            r.text@ == text@,
            r.spec_key() == (StyleKey {
                bold: false,
                italic: false,
                underline: false,
                inverse: false,
                fg: ColorWire::Default,
                bg: ColorWire::Default,
            }),
    {
        StyleRun {
            text: String::from_str(text),
            bold: false,
            italic: false,
            underline: false,
            inverse: false,
            fg: ColorWire::Default,
            bg: ColorWire::Default,
        }
    }
}

/// Text and style of a run.
pub struct RunView {
    pub text: Seq<char>,
    pub key: StyleKey,
}

pub open spec fn run_views(runs: Seq<StyleRun>) -> Seq<RunView> {
    runs.map_values(|run: StyleRun| RunView { text: run.text@, key: run.spec_key() })
}

/// Run-length encoding of a row: the cells that show something, in order, with
/// neighbours of one style merged.
pub open spec fn encode_runs(cells: Seq<StyledCell>) -> Seq<RunView>
    decreases cells.len(),
{
    if cells.len() == 0 {
        Seq::empty()
    } else {
        let runs = encode_runs(cells.drop_last());
        let cell = cells.last();
        if !cell.shows() {
            runs
        } else if runs.len() > 0 && runs.last().key == cell.spec_key() {
            runs.update(
                runs.len() - 1,
                RunView { text: runs.last().text + cell.grapheme@, key: runs.last().key },
            )
        } else {
            runs.push(RunView { text: cell.grapheme@, key: cell.spec_key() })
        }
    }
}

/// Text that a row shows.
pub open spec fn row_text(cells: Seq<StyledCell>) -> Seq<char>
    decreases cells.len(),
{
    if cells.len() == 0 {
        Seq::empty()
    } else if cells.last().shows() {
        row_text(cells.drop_last()) + cells.last().grapheme@
    } else {
        row_text(cells.drop_last())
    }
}

/// Text of consecutive runs.
pub open spec fn runs_text(runs: Seq<RunView>) -> Seq<char>
    decreases runs.len(),
{
    if runs.len() == 0 {
        Seq::empty()
    } else {
        runs_text(runs.drop_last()) + runs.last().text
    }
}

/// Collapse adjacent same-style cells into runs. Wide continuations add no text.
pub fn rle_style_runs(cells: &Vec<StyledCell>) -> (runs: Vec<StyleRun>)
    ensures
        run_views(runs@) == encode_runs(cells@),
{
    let mut runs: Vec<StyleRun> = Vec::new();
    let mut i: usize = 0;
    assert(run_views(runs@) =~= encode_runs(cells@.take(0)));
    while i < cells.len()
        invariant
            i <= cells@.len(),
            run_views(runs@) == encode_runs(cells@.take(i as int)),
        decreases cells@.len() - i,
    {
        let ghost head = cells@.take(i + 1);
        let ghost before = runs@;
        proof {
            assert(head.drop_last() =~= cells@.take(i as int));
            assert(head.last() == cells@[i as int]);
        }
        if !cells[i].wide_cont {
            let next = StyleRun::from_cell(&cells[i]);
            if !next.text.as_str().is_empty() {
                let n: usize = runs.len();
                let mut merged: bool = false;
                if n > 0 {
                    if runs[n - 1].key() == next.key() {
                        merged = true;
                    }
                }
                if merged {
                    let mut last = runs.pop().unwrap();
                    last.text.append(next.text.as_str());
                    runs.push(last);
                    proof {
                        assert(run_views(before).last() == RunView {
                            text: before.last().text@,
                            key: before.last().spec_key(),
                        });
                        assert(run_views(runs@) =~= run_views(before).update(
                            n - 1,
                            RunView {
                                text: run_views(before).last().text + next.text@,
                                key: run_views(before).last().key,
                            },
                        ));
                    }
                } else {
                    runs.push(next);
                    assert(run_views(runs@) =~= run_views(before).push(
                        RunView { text: next.text@, key: next.spec_key() },
                    ));
                }
            }
        }
        i = i + 1;
    }
    assert(cells@.take(i as int) =~= cells@);
    runs
}

proof fn lemma_merge_text(runs: Seq<RunView>, tail: Seq<char>)
    requires
        runs.len() > 0,
    ensures
        runs_text(
            runs.update(
                runs.len() - 1,
                RunView { text: runs.last().text + tail, key: runs.last().key },
            ),
        ) == runs_text(runs) + tail,
{
    let merged = runs.update(
        runs.len() - 1,
        RunView { text: runs.last().text + tail, key: runs.last().key },
    );
    assert(merged.drop_last() =~= runs.drop_last());
    assert(runs_text(runs.drop_last()) + (runs.last().text + tail) =~= runs_text(runs.drop_last())
        + runs.last().text + tail);
}

/// Encoding loses no text: the runs spell the row.
pub proof fn runs_spell_the_row(cells: Seq<StyledCell>)
    ensures
        runs_text(encode_runs(cells)) == row_text(cells),
    decreases cells.len(),
{
    if cells.len() > 0 {
        runs_spell_the_row(cells.drop_last());
        let runs = encode_runs(cells.drop_last());
        let cell = cells.last();
        if cell.shows() {
            if runs.len() > 0 && runs.last().key == cell.spec_key() {
                lemma_merge_text(runs, cell.grapheme@);
            } else {
                let pushed = runs.push(RunView { text: cell.grapheme@, key: cell.spec_key() });
                assert(pushed.drop_last() =~= runs);
            }
        }
    }
}

/// Encoding is maximal: neighbouring runs differ in style, and no run is empty.
pub proof fn runs_are_maximal(cells: Seq<StyledCell>)
    ensures
        forall|i: int|
            0 <= i < encode_runs(cells).len() - 1 ==> (#[trigger] encode_runs(cells)[i]).key
                != encode_runs(cells)[i + 1].key,
        forall|i: int|
            0 <= i < encode_runs(cells).len() ==> (#[trigger] encode_runs(cells)[i]).text.len() > 0,
    decreases cells.len(),
{
    if cells.len() > 0 {
        runs_are_maximal(cells.drop_last());
        let runs = encode_runs(cells.drop_last());
        let all = encode_runs(cells);
        assert forall|i: int| 0 <= i < all.len() - 1 implies (#[trigger] all[i]).key != all[i
            + 1].key by {
            if i < runs.len() - 1 {
                assert(runs[i].key != runs[i + 1].key);
            }
        }
    }
}

} // verus!
