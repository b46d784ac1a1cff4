use vstd::prelude::*;

verus! {

#[verifier::external_type_specification]
#[verifier::external_body]
pub struct ExParser(vt100::Parser);

/// Every byte that a terminal parser has processed since it was made, in
/// order.
pub uninterp spec fn parser_input(p: vt100::Parser) -> Seq<u8>;

/// The (rows, columns) that a terminal parser was made with.
pub uninterp spec fn parser_size(p: vt100::Parser) -> (u16, u16);

/// The text of the visible cell at (`row`, `col`) of a `rows` x `cols`
/// terminal after it has processed `input`.
pub uninterp spec fn cell_text(rows: u16, cols: u16, input: Seq<u8>, row: u16, col: u16) -> Seq<char>;

/// Relies on vt100::Parser::new: a blank terminal of the given size with no
/// scrollback. It subtracts one from the rows when it is made, and
/// processing a double-width character subtracts two from the columns, so
/// the screen needs a row and two columns.
#[verifier::external_body]
fn new_parser(rows: u16, cols: u16) -> (r: vt100::Parser)
    requires
        rows >= 1,
        cols >= 2,
    ensures
        parser_input(r) == Seq::<u8>::empty(),
        parser_size(r) == (rows, cols),
{
    vt100::Parser::new(rows, cols, 0)
}

/// Relies on vt100::Parser::process: feeds the bytes one by one to the
/// terminal state machine; the size is left alone.
#[verifier::external_body]
fn feed(p: &mut vt100::Parser, data: &[u8])
    ensures
        parser_input(*final(p)) == parser_input(*old(p)) + data@,
        parser_size(*final(p)) == parser_size(*old(p)),
{
    p.process(data)
}

/// Relies on vt100::Screen::cell and Cell::contents: the characters held in
/// a visible cell, which exists for every position inside the size.
#[verifier::external_body]
fn cell_chars(p: &vt100::Parser, row: u16, col: u16) -> (r: Vec<char>)
    requires
        row < parser_size(*p).0,
        col < parser_size(*p).1,
    ensures
        r@ == cell_text(parser_size(*p).0, parser_size(*p).1, parser_input(*p), row, col),
{
    p.screen().cell(row, col).unwrap().contents().chars().collect()
}

/// Relies on String's `FromIterator<&char>`: the string of these characters.
#[verifier::external_body]
fn string_of(v: &Vec<char>) -> (r: String)
    ensures
        r@ == v@,
{
    v.iter().collect()
}

/// Unicode's White_Space property, as `char::is_whitespace` tests it.
pub open spec fn is_white(c: char) -> bool {
    let v = c as u32;
    (0x9 <= v <= 0xd) || v == 0x20 || v == 0x85 || v == 0xa0 || v == 0x1680 || (0x2000 <= v
        <= 0x200a) || v == 0x2028 || v == 0x2029 || v == 0x202f || v == 0x205f || v == 0x3000
}

pub fn is_whitespace(c: char) -> (r: bool)
    ensures
        r == is_white(c),
{
    let v = c as u32;
    (0x9 <= v && v <= 0xd) || v == 0x20 || v == 0x85 || v == 0xa0 || v == 0x1680 || (0x2000 <= v
        && v <= 0x200a) || v == 0x2028 || v == 0x2029 || v == 0x202f || v == 0x205f || v == 0x3000
}

/// `s` without its trailing whitespace.
pub open spec fn trim_end(s: Seq<char>) -> Seq<char>
    decreases s.len(),
{
    if s.len() > 0 && is_white(s.last()) {
        trim_end(s.drop_last())
    } else {
        s
    }
}

/// The texts of a row's cells, side by side.
pub open spec fn row_concat(cells: Seq<Seq<char>>) -> Seq<char>
    decreases cells.len(),
{
    if cells.len() == 0 {
        Seq::empty()
    } else {
        row_concat(cells.drop_last()) + cells.last()
    }
}

/// The cell texts of a `rows` x `cols` screen after it has processed `input`.
pub open spec fn screen_cells(rows: u16, cols: u16, input: Seq<u8>) -> Seq<Seq<Seq<char>>> {
    Seq::new(
        rows as nat,
        |r: int| Seq::new(cols as nat, |c: int| cell_text(rows, cols, input, r as u16, c as u16)),
    )
}

/// Each row of a grid of cell texts, trimmed of trailing whitespace.
pub open spec fn grid_lines(grid: Seq<Seq<Seq<char>>>) -> Seq<Seq<char>> {
    Seq::new(grid.len(), |r: int| trim_end(row_concat(grid[r])))
}

/// The plaintext of a grid of cell texts: rows trimmed of trailing
/// whitespace, trailing blank rows dropped, rows joined by newlines.
pub open spec fn render_grid(grid: Seq<Seq<Seq<char>>>) -> Seq<char> {
    join_lines(drop_blank_tail(grid_lines(grid)))
}

/// `ls` without its trailing empty lines.
pub open spec fn drop_blank_tail(ls: Seq<Seq<char>>) -> Seq<Seq<char>>
    decreases ls.len(),
{
    if ls.len() > 0 && ls.last().len() == 0 {
        drop_blank_tail(ls.drop_last())
    } else {
        ls
    }
}

/// The lines joined with a newline between each two.
pub open spec fn join_lines(ls: Seq<Seq<char>>) -> Seq<char>
    decreases ls.len(),
{
    if ls.len() == 0 {
        Seq::empty()
    } else if ls.len() == 1 {
        ls[0]
    } else {
        join_lines(ls.drop_last()) + seq!['\n'] + ls.last()
    }
}

/// The plaintext of a `rows` x `cols` screen after it has processed `input`.
pub open spec fn render(rows: u16, cols: u16, input: Seq<u8>) -> Seq<char> {
    render_grid(screen_cells(rows, cols, input))
}

/// The text of each line, in order.
pub open spec fn line_texts(v: Seq<Vec<char>>) -> Seq<Seq<char>> {
    v.map_values(|l: Vec<char>| l@)
}

/// The cell texts of each row, in order.
pub open spec fn grid_texts(v: Seq<Vec<Vec<char>>>) -> Seq<Seq<Seq<char>>> {
    v.map_values(|row: Vec<Vec<char>>| line_texts(row@))
}

/// A virtual terminal screen that turns a control-sequence byte stream into
/// plaintext, and keeps the last two plaintext snapshots.
pub struct ScreenManager {
    parser: vt100::Parser,
    rows: u16,
    cols: u16,
    current_snapshot: String,
    previous_snapshot: String,
}

impl ScreenManager {
    pub closed spec fn wf(&self) -> bool {
        &&& self.rows >= 1
        &&& self.cols >= 2
        &&& parser_size(self.parser) == (self.rows, self.cols)
    }

    pub closed spec fn rows(&self) -> u16 {
        self.rows
    }

    pub closed spec fn cols(&self) -> u16 {
        self.cols
    }

    /// Every byte processed since the screen was made or last resized.
    pub closed spec fn input(&self) -> Seq<u8> {
        parser_input(self.parser)
    }

    pub closed spec fn previous(&self) -> Seq<char> {
        self.previous_snapshot@
    }

    pub closed spec fn current(&self) -> Seq<char> {
        self.current_snapshot@
    }

    /// The plaintext the screen shows now.
    pub open spec fn rendered(&self) -> Seq<char> {
        render(self.rows(), self.cols(), self.input())
    }

    /// `next` is `self` after processing `data`.
    pub open spec fn processed(&self, data: Seq<u8>, next: &ScreenManager) -> bool {
        &&& next.wf()
        &&& next.rows() == self.rows()
        &&& next.cols() == self.cols()
        &&& next.input() == self.input() + data
        &&& next.previous() == self.previous()
        &&& next.current() == self.current()
    }

    /// A blank screen of `rows` x `cols`, with both snapshots empty.
    pub fn new(rows: u16, cols: u16) -> (r: Self)
        requires
            rows >= 1,
            cols >= 2,
        ensures
            r.wf(),
            r.rows() == rows,
            r.cols() == cols,
            r.input() == Seq::<u8>::empty(),
            r.previous() == Seq::<char>::empty(),
            r.current() == Seq::<char>::empty(),
    {
        ScreenManager {
            parser: new_parser(rows, cols),
            rows,
            cols,
            current_snapshot: String::new(),
            previous_snapshot: String::new(),
        }
    }

    /// Feeds a chunk of the output stream to the screen.
    pub fn process(&mut self, data: &[u8])
        requires
            old(self).wf(),
        ensures
            old(self).processed(data@, final(self)),
    {
        feed(&mut self.parser, data);
    }

    /// Replaces the screen with a blank one of the new size; the snapshots
    /// stay.
    pub fn resize(&mut self, rows: u16, cols: u16)
        requires
            rows >= 1,
            cols >= 2,
        ensures
            final(self).wf(),
            final(self).rows() == rows,
            final(self).cols() == cols,
            final(self).input() == Seq::<u8>::empty(),
            final(self).previous() == old(self).previous(),
            final(self).current() == old(self).current(),
    {
        self.parser = new_parser(rows, cols);
        self.rows = rows;
        self.cols = cols;
    }

    /// Moves the current snapshot to the previous one, renders the screen
    /// into a new current one, and returns both.
    pub fn take_snapshot(&mut self) -> (r: (String, String))
        requires
            old(self).wf(),
        ensures
            final(self).wf(),
            final(self).rows() == old(self).rows(),
            final(self).cols() == old(self).cols(),
            final(self).input() == old(self).input(),
            final(self).previous() == old(self).current(),
            final(self).current() == old(self).rendered(),
            r.0@ == old(self).current(),
            r.1@ == old(self).rendered(),
    {
        let text = self.screen_to_string();
        self.previous_snapshot = self.current_snapshot.clone();
        self.current_snapshot = text;
        (self.previous_snapshot.clone(), self.current_snapshot.clone())
    }

    /// The previous and the current snapshot.
    pub fn get_snapshots(&self) -> (r: (&str, &str))
        ensures
            r.0@ == self.previous(),
            r.1@ == self.current(),
    {
        (self.previous_snapshot.as_str(), self.current_snapshot.as_str())
    }

    /// Renders the screen from the text of each of its cells.
    fn screen_to_string(&self) -> (r: String)
        requires
            self.wf(),
        ensures
            r@ == self.rendered(),
    {
        let ghost all = screen_cells(self.rows, self.cols, self.input());
        let mut cells: Vec<Vec<Vec<char>>> = Vec::new();
        let mut row: u16 = 0;
        while row < self.rows
            invariant
                self.wf(),
                row <= self.rows,
                all == screen_cells(self.rows, self.cols, self.input()),
                grid_texts(cells@) == all.subrange(0, row as int),
            decreases self.rows - row,
        {
            let ghost want = all[row as int];
            let mut line: Vec<Vec<char>> = Vec::new();
            let mut col: u16 = 0;
            while col < self.cols
                invariant
                    self.wf(),
                    row < self.rows,
                    col <= self.cols,
                    all == screen_cells(self.rows, self.cols, self.input()),
                    want == all[row as int],
                    line_texts(line@) == want.subrange(0, col as int),
                decreases self.cols - col,
            {
                let cell = cell_chars(&self.parser, row, col);
                let ghost before = line_texts(line@);
                line.push(cell);
                assert(line_texts(line@) =~= before.push(cell@));
                assert(want.subrange(0, col + 1) =~= want.subrange(0, col as int).push(want[col as int]));
                col = col + 1;
            }
            assert(want.subrange(0, want.len() as int) =~= want);
            let ghost prior = grid_texts(cells@);
            cells.push(line);
            assert(grid_texts(cells@) =~= prior.push(want));
            assert(all.subrange(0, row + 1) =~= all.subrange(0, row as int).push(all[row as int]));
            row = row + 1;
        }
        assert(all.subrange(0, all.len() as int) =~= all);
        render_cells(&cells)
    }
}

/// The texts of a row's cells side by side, trimmed of trailing whitespace.
fn join_row(row: &Vec<Vec<char>>) -> (r: Vec<char>)
    ensures
        r@ == trim_end(row_concat(line_texts(row@))),
{
    let ghost texts = line_texts(row@);
    let mut line: Vec<char> = Vec::new();
    let mut c: usize = 0;
    while c < row.len()
        invariant
            c <= row@.len(),
            texts == line_texts(row@),
            line@ == row_concat(texts.subrange(0, c as int)),
        decreases row@.len() - c,
    {
        let cell = &row[c];
        let ghost before = line@;
        let mut k: usize = 0;
        while k < cell.len()
            invariant
                k <= cell@.len(),
                line@ == before + cell@.subrange(0, k as int),
            decreases cell@.len() - k,
        {
            line.push(cell[k]);
            k = k + 1;
            assert(line@ =~= before + cell@.subrange(0, k as int));
        }
        assert(cell@.subrange(0, cell@.len() as int) =~= cell@);
        assert(texts.subrange(0, c + 1).drop_last() =~= texts.subrange(0, c as int));
        c = c + 1;
    }
    assert(texts.subrange(0, texts.len() as int) =~= texts);
    let ghost full = line@;
    while line.len() > 0 && is_whitespace(line[line.len() - 1])
        invariant
            trim_end(line@) == trim_end(full),
        decreases line@.len(),
    {
        let ghost prior = line@;
        line.pop();
        assert(line@ =~= prior.drop_last());
    }
    line
}

/// Renders a grid of cell texts, given row by row: each row's cells side by
/// side and trimmed of trailing whitespace, trailing blank rows dropped, rows
/// joined by newlines.
pub fn render_cells(cells: &Vec<Vec<Vec<char>>>) -> (r: String)
    ensures
        r@ == render_grid(grid_texts(cells@)),
{
    let ghost all = grid_lines(grid_texts(cells@));
    let mut lines: Vec<Vec<char>> = Vec::new();
    let mut row: usize = 0;
    while row < cells.len()
        invariant
            row <= cells@.len(),
            all == grid_lines(grid_texts(cells@)),
            line_texts(lines@) == all.subrange(0, row as int),
        decreases cells@.len() - row,
    {
        let line = join_row(&cells[row]);
        let ghost before = line_texts(lines@);
        lines.push(line);
        assert(line_texts(lines@) =~= before.push(line@));
        assert(all.subrange(0, row + 1) =~= all.subrange(0, row as int).push(all[row as int]));
        row = row + 1;
    }
    assert(all.subrange(0, all.len() as int) =~= all);
    while lines.len() > 0 && lines[lines.len() - 1].len() == 0
        invariant
            drop_blank_tail(line_texts(lines@)) == drop_blank_tail(all),
        decreases lines@.len(),
    {
        let ghost prior = line_texts(lines@);
        lines.pop();
        assert(line_texts(lines@) =~= prior.drop_last());
    }
    let ghost kept = line_texts(lines@);
    assert(kept == drop_blank_tail(all));
    let mut out: Vec<char> = Vec::new();
    let mut i: usize = 0;
    while i < lines.len()
        invariant
            i <= lines@.len(),
            kept == line_texts(lines@),
            out@ == join_lines(kept.take(i as int)),
        decreases lines@.len() - i,
    {
        let ghost before = out@;
        if i > 0 {
            out.push('\n');
        }
        let line = &lines[i];
        let mut k: usize = 0;
        while k < line.len()
            invariant
                k <= line@.len(),
                i > 0 ==> out@ == before + seq!['\n'] + line@.subrange(0, k as int),
                i == 0 ==> out@ == before + line@.subrange(0, k as int),
            decreases line@.len() - k,
        {
            out.push(line[k]);
            k = k + 1;
            assert(i > 0 ==> out@ =~= before + seq!['\n'] + line@.subrange(0, k as int));
            assert(i == 0 ==> out@ =~= before + line@.subrange(0, k as int));
        }
        assert(line@.subrange(0, line@.len() as int) =~= line@);
        assert(kept.take(i + 1).drop_last() =~= kept.take(i as int));
        if i == 0 {
            assert(before =~= Seq::<char>::empty());
            assert(out@ =~= line@);
        }
        i = i + 1;
    }
    assert(kept.take(kept.len() as int) =~= kept);
    string_of(&out)
}

/// The bytes of all chunks, one after another.
pub open spec fn concat_all(chunks: Seq<Seq<u8>>) -> Seq<u8>
    decreases chunks.len(),
{
    if chunks.len() == 0 {
        Seq::empty()
    } else {
        concat_all(chunks.drop_last()) + chunks.last()
    }
}

/// Feeding a stream in chunks renders the same text, and leaves the same
/// snapshots for `take_snapshot` to rotate, as feeding it in one call:
/// `screens[k + 1]` is `screens[k]` after processing `chunks[k]`, and
/// `whole` is `screens[0]` after processing all of them at once.
pub proof fn lemma_chunking(screens: Seq<ScreenManager>, chunks: Seq<Seq<u8>>, whole: ScreenManager)
    requires
        screens.len() == chunks.len() + 1,
        forall|k: int|
            0 <= k < chunks.len() ==> #[trigger] screens[k].processed(chunks[k], &screens[k + 1]),
        screens[0].processed(concat_all(chunks), &whole),
    ensures
        screens.last().rendered() == whole.rendered(),
        screens.last().input() == whole.input(),
        screens.last().rows() == whole.rows(),
        screens.last().cols() == whole.cols(),
        screens.last().previous() == whole.previous(),
        screens.last().current() == whole.current(),
{
    lemma_chunk_prefix(screens, chunks, chunks.len() as int);
    assert(chunks.take(chunks.len() as int) =~= chunks);
}

proof fn lemma_chunk_prefix(screens: Seq<ScreenManager>, chunks: Seq<Seq<u8>>, n: int)
    requires
        screens.len() == chunks.len() + 1,
        forall|k: int|
            0 <= k < chunks.len() ==> #[trigger] screens[k].processed(chunks[k], &screens[k + 1]),
        0 <= n <= chunks.len(),
    ensures
        screens[n].input() == screens[0].input() + concat_all(chunks.take(n)),
        screens[n].rows() == screens[0].rows(),
        screens[n].cols() == screens[0].cols(),
        screens[n].previous() == screens[0].previous(),
        screens[n].current() == screens[0].current(),
    decreases n,
{
    if n == 0 {
        assert(chunks.take(0) =~= Seq::<Seq<u8>>::empty());
        assert(screens[0].input() + Seq::<u8>::empty() =~= screens[0].input());
    } else {
        lemma_chunk_prefix(screens, chunks, n - 1);
        let j = n - 1;
        assert(screens[j].processed(chunks[j], &screens[j + 1]));
        assert(j + 1 == n);
        assert(chunks.take(n).drop_last() =~= chunks.take(j));
        assert(screens[n].input() =~= screens[0].input() + concat_all(chunks.take(n)));
    }
}

} // verus!
