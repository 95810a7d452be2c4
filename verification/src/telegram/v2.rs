//! MarkdownV2 from markdown events: a machine that takes one event at a time
//! and collects paragraph-level blocks.

use crate::telegram::markdown;
use crate::telegram::markdown::{MdEvent, MdTag};
use crate::text;
use vstd::prelude::*;

verus! {

/// The characters that MarkdownV2 running text must escape.
pub open spec fn is_special(c: char) -> bool {
    c == '_' || c == '*' || c == '[' || c == ']' || c == '(' || c == ')' || c == '~' || c == '`'
        || c == '>' || c == '#' || c == '+' || c == '-' || c == '=' || c == '|' || c == '{' || c
        == '}' || c == '.' || c == '!' || c == '\\'
}

/// One character of running text, escaped where it must be.
pub open spec fn escaped_char(c: char) -> Seq<char> {
    if is_special(c) {
        seq!['\\', c]
    } else {
        seq![c]
    }
}

/// Running text, escaped.
pub open spec fn escaped(s: Seq<char>) -> Seq<char>
    decreases s.len(),
{
    if s.len() == 0 {
        Seq::empty()
    } else {
        escaped(s.drop_last()) + escaped_char(s.last())
    }
}

/// Text inside code, escaped.
pub open spec fn escaped_code(s: Seq<char>) -> Seq<char> {
    text::replace_char(text::replace_char(s, '\\', "\\\\"@), '`', "\\`"@)
}

/// A link's destination, escaped.
pub open spec fn escaped_url(s: Seq<char>) -> Seq<char> {
    text::replace_char(text::replace_char(s, '\\', "\\\\"@), ')', "\\)"@)
}

/// Escape for MarkdownV2 running text.
pub fn escape_v2(s: &str) -> (r: String)
    ensures
        r@ == escaped(s@),
{
    let v = text::chars_of(s);
    let mut r: String = String::new();
    let mut i: usize = 0;
    while i < v.len()
        invariant
            v@ == s@,
            i <= v@.len(),
            r@ == escaped(v@.take(i as int)),
        decreases v@.len() - i,
    {
        let c = v[i];
        assert(v@.take(i + 1).drop_last() =~= v@.take(i as int));
        let ghost before = r@;
        if c == '_' || c == '*' || c == '[' || c == ']' || c == '(' || c == ')' || c == '~' || c
            == '`' || c == '>' || c == '#' || c == '+' || c == '-' || c == '=' || c == '|' || c
            == '{' || c == '}' || c == '.' || c == '!' || c == '\\' {
            r.push('\\');
        }
        r.push(c);
        assert(r@ =~= before + escaped_char(c));
        i = i + 1;
    }
    assert(v@.take(i as int) =~= s@);
    r
}

/// Escape for text inside code.
pub fn escape_v2_code(s: &str) -> (r: String)
    ensures
        r@ == escaped_code(s@),
{
    let t = text::replaced_char(s, '\\', "\\\\");
    text::replaced_char(t.as_str(), '`', "\\`")
}

/// Escape for a link's destination.
pub fn escape_v2_url(s: &str) -> (r: String)
    ensures
        r@ == escaped_url(s@),
{
    let t = text::replaced_char(s, '\\', "\\\\");
    text::replaced_char(t.as_str(), ')', "\\)")
}

/// The widest a table column is drawn.
pub const MAX_CELL: usize = 40;

/// The texts of a table, row by row.
pub open spec fn row_views(rows: Seq<Vec<String>>) -> Seq<Seq<Seq<char>>> {
    rows.map_values(|r: Vec<String>| text::views(r@))
}

/// The length of the longest row.
pub open spec fn column_count(rows: Seq<Seq<Seq<char>>>) -> nat
    decreases rows.len(),
{
    if rows.len() == 0 {
        0
    } else {
        let before = column_count(rows.drop_last());
        if rows.last().len() > before {
            rows.last().len()
        } else {
            before
        }
    }
}

/// What is drawn of column `i` of a row: nothing where the row is shorter.
pub open spec fn drawn_cell(row: Seq<Seq<char>>, i: int) -> Seq<char> {
    if 0 <= i < row.len() {
        text::first_chars(row[i], MAX_CELL as nat)
    } else {
        Seq::empty()
    }
}

/// The width of column `i`: that of the widest cell drawn in it.
pub open spec fn column_width(rows: Seq<Seq<Seq<char>>>, i: int) -> nat
    decreases rows.len(),
{
    if rows.len() == 0 {
        0
    } else {
        let before = column_width(rows.drop_last(), i);
        let here = drawn_cell(rows.last(), i).len();
        if here > before {
            here
        } else {
            before
        }
    }
}

/// A cell filled up with spaces to its column's width.
pub open spec fn padded_cell(rows: Seq<Seq<Seq<char>>>, row: Seq<Seq<char>>, i: int) -> Seq<char> {
    let cell = drawn_cell(row, i);
    cell + text::repeat(
        " "@,
        if column_width(rows, i) >= cell.len() {
            (column_width(rows, i) - cell.len()) as nat
        } else {
            0
        },
    )
}

/// A row drawn as one line.
pub open spec fn row_line(rows: Seq<Seq<Seq<char>>>, row: Seq<Seq<char>>) -> Seq<char> {
    text::trim_end(
        text::join(
            Seq::new(column_count(rows), |i: int| padded_cell(rows, row, i)),
            " | "@,
        ),
    )
}

/// The line under the first row.
pub open spec fn rule_line(rows: Seq<Seq<Seq<char>>>) -> Seq<char> {
    text::join(
        Seq::new(column_count(rows), |i: int| text::repeat("-"@, column_width(rows, i))),
        "-|-"@,
    )
}

/// The first `k` rows, each on a line, with the rule under the first where
/// others follow it.
pub open spec fn table_lines(rows: Seq<Seq<Seq<char>>>, k: nat) -> Seq<char>
    decreases k,
{
    if k == 0 {
        Seq::empty()
    } else {
        table_lines(rows, (k - 1) as nat) + row_line(rows, rows[k - 1]) + "\n"@ + (if k == 1
            && rows.len() > 1 {
            rule_line(rows) + "\n"@
        } else {
            Seq::empty()
        })
    }
}

/// A table drawn with characters of one width.
pub open spec fn table_text(rows: Seq<Seq<Seq<char>>>) -> Seq<char> {
    if column_count(rows) == 0 {
        Seq::empty()
    } else {
        text::trim_end(table_lines(rows, rows.len()))
    }
}

fn count_columns(rows: &Vec<Vec<String>>) -> (n: usize)
    ensures
        n == column_count(row_views(rows@)),
{
    let mut n: usize = 0;
    let mut k: usize = 0;
    while k < rows.len()
        invariant
            k <= rows@.len(),
            n == column_count(row_views(rows@).take(k as int)),
        decreases rows@.len() - k,
    {
        assert(row_views(rows@).take(k + 1).drop_last() =~= row_views(rows@).take(k as int));
        if rows[k].len() > n {
            n = rows[k].len();
        }
        k = k + 1;
    }
    assert(row_views(rows@).take(k as int) =~= row_views(rows@));
    n
}

fn draw_cell(row: &Vec<String>, i: usize) -> (r: String)
    ensures
        r@ == drawn_cell(text::views(row@), i as int),
{
    if i < row.len() {
        text::take_chars(row[i].as_str(), MAX_CELL)
    } else {
        String::new()
    }
}

fn measure_column(rows: &Vec<Vec<String>>, i: usize) -> (w: usize)
    ensures
        w == column_width(row_views(rows@), i as int),
{
    let mut w: usize = 0;
    let mut k: usize = 0;
    while k < rows.len()
        invariant
            k <= rows@.len(),
            w == column_width(row_views(rows@).take(k as int), i as int),
        decreases rows@.len() - k,
    {
        assert(row_views(rows@).take(k + 1).drop_last() =~= row_views(rows@).take(k as int));
        let here = text::char_count(draw_cell(&rows[k], i).as_str());
        if here > w {
            w = here;
        }
        k = k + 1;
    }
    assert(row_views(rows@).take(k as int) =~= row_views(rows@));
    w
}

fn draw_row(rows: &Vec<Vec<String>>, row: &Vec<String>, widths: &Vec<usize>) -> (r: String)
    requires
        widths@.len() == column_count(row_views(rows@)),
        forall|i: int|
            0 <= i < widths@.len() ==> widths@[i] == column_width(row_views(rows@), i),
    ensures
        r@ == row_line(row_views(rows@), text::views(row@)),
{
    let ghost vs = row_views(rows@);
    let ghost cells = Seq::new(
        column_count(vs),
        |i: int| padded_cell(vs, text::views(row@), i),
    );
    let mut parts: Vec<String> = Vec::new();
    let mut i: usize = 0;
    while i < widths.len()
        invariant
            i <= widths@.len(),
            widths@.len() == column_count(vs),
            forall|i: int| 0 <= i < widths@.len() ==> widths@[i] == column_width(vs, i),
            cells == Seq::new(column_count(vs), |i: int| padded_cell(vs, text::views(row@), i)),
            text::views(parts@) == cells.take(i as int),
        decreases widths@.len() - i,
    {
        let mut cell = draw_cell(row, i);
        let used = text::char_count(cell.as_str());
        let pad: usize = if widths[i] >= used {
            widths[i] - used
        } else {
            0
        };
        cell.append(text::repeated(" ", pad).as_str());
        proof {
            text::lemma_views_push(parts@, cell);
            assert(cells.take(i + 1) =~= cells.take(i as int).push(cell@));
        }
        parts.push(cell);
        i = i + 1;
    }
    assert(cells.take(i as int) =~= cells);
    let line = text::join_list(&parts, " | ");
    text::trimmed_end(line.as_str())
}

fn draw_rule(rows: &Vec<Vec<String>>, widths: &Vec<usize>) -> (r: String)
    requires
        widths@.len() == column_count(row_views(rows@)),
        forall|i: int|
            0 <= i < widths@.len() ==> widths@[i] == column_width(row_views(rows@), i),
    ensures
        r@ == rule_line(row_views(rows@)),
{
    let ghost vs = row_views(rows@);
    let ghost cells = Seq::new(
        column_count(vs),
        |i: int| text::repeat("-"@, column_width(vs, i)),
    );
    let mut parts: Vec<String> = Vec::new();
    let mut i: usize = 0;
    while i < widths.len()
        invariant
            i <= widths@.len(),
            widths@.len() == column_count(vs),
            forall|i: int| 0 <= i < widths@.len() ==> widths@[i] == column_width(vs, i),
            cells == Seq::new(column_count(vs), |i: int| text::repeat("-"@, column_width(vs, i))),
            text::views(parts@) == cells.take(i as int),
        decreases widths@.len() - i,
    {
        let cell = text::repeated("-", widths[i]);
        proof {
            text::lemma_views_push(parts@, cell);
            assert(cells.take(i + 1) =~= cells.take(i as int).push(cell@));
        }
        parts.push(cell);
        i = i + 1;
    }
    assert(cells.take(i as int) =~= cells);
    text::join_list(&parts, "-|-")
}

/// Draws a table with characters of one width.
pub fn render_table_monospace(rows: &Vec<Vec<String>>) -> (r: String)
    ensures
        r@ == table_text(row_views(rows@)),
{
    let ghost vs = row_views(rows@);
    let cols = count_columns(rows);
    if cols == 0 {
        return String::new();
    }
    let mut widths: Vec<usize> = Vec::new();
    let mut i: usize = 0;
    while i < cols
        invariant
            i <= cols,
            vs == row_views(rows@),
            widths@.len() == i,
            forall|k: int| 0 <= k < i ==> widths@[k] == column_width(vs, k),
        decreases cols - i,
    {
        widths.push(measure_column(rows, i));
        i = i + 1;
    }
    let mut out: String = String::new();
    let mut k: usize = 0;
    while k < rows.len()
        invariant
            k <= rows@.len(),
            vs == row_views(rows@),
            widths@.len() == column_count(vs),
            forall|i: int| 0 <= i < widths@.len() ==> widths@[i] == column_width(vs, i),
            out@ == table_lines(vs, k as nat),
        decreases rows@.len() - k,
    {
        let line = draw_row(rows, &rows[k], &widths);
        out.append(line.as_str());
        out.append("\n");
        if k == 0 && rows.len() > 1 {
            let rule = draw_rule(rows, &widths);
            let ghost before = out@;
            out.append(rule.as_str());
            out.append("\n");
            assert(out@ =~= before + (rule@ + "\n"@));
        } else {
            assert(out@ =~= out@ + Seq::<char>::empty());
        }
        k = k + 1;
    }
    text::trimmed_end(out.as_str())
}

/// A table being read, as mathematical values.
pub ghost struct TableView {
    pub rows: Seq<Seq<Seq<char>>>,
    pub cell: Seq<char>,
    pub in_head: bool,
}

/// The machine's state, as mathematical values.
pub ghost struct V2View {
    /// The finished blocks.
    pub blocks: Seq<Seq<char>>,
    /// The block being written.
    pub cur: Seq<char>,
    /// The open lists, each with the number of its next item where it is ordered.
    pub lists: Seq<Option<u64>>,
    /// How many quotes are open.
    pub quote: nat,
    pub in_code: bool,
    /// The destination of the open link.
    pub link: Option<Seq<char>>,
    pub link_text: Seq<char>,
    pub table: Option<TableView>,
    pub in_image: bool,
}

/// The lines of a text, each behind a `>`.
pub open spec fn quoted(s: Seq<char>) -> Seq<char> {
    text::join(text::lines(s).map_values(|l: Seq<char>| seq!['>'] + l), "\n"@)
}

/// Whether a destination is one that Telegram links to.
pub open spec fn linkable(url: Seq<char>) -> bool {
    "http://"@.is_prefix_of(url) || "https://"@.is_prefix_of(url) || "tg://"@.is_prefix_of(url)
}

/// The link that a destination and its text make: the text alone where the
/// destination is of no use, the destination where there is no text.
pub open spec fn link_piece(url: Seq<char>, link_text: Seq<char>) -> Seq<char> {
    let shown = if text::blank(link_text) {
        escaped(url)
    } else {
        link_text
    };
    if linkable(url) {
        "["@ + shown + "]("@ + escaped_url(url) + ")"@
    } else {
        shown
    }
}

/// The characters of a code block's language that are kept.
pub open spec fn is_lang_char(c: char) -> bool {
    text::is_ascii_word(c) || c == '_' || c == '-' || c == '+'
}

/// The opening line of a code block.
pub open spec fn fence_line(info: Seq<char>) -> Seq<char> {
    "```"@ + info.filter(|c: char| is_lang_char(c)) + "\n"@
}

/// A marker for the next item of the innermost list, indented by its depth.
pub open spec fn item_marker(lists: Seq<Option<u64>>) -> Seq<char> {
    text::repeat(
        "  "@,
        if lists.len() > 0 {
            (lists.len() - 1) as nat
        } else {
            0
        },
    ) + (if lists.len() > 0 && lists.last() is Some {
        text::decimal(lists.last()->0 as nat) + "\\. "@
    } else {
        "• "@
    })
}

/// The lists after the next item of the innermost one; a count that is at its end
/// starts over.
pub open spec fn counted(lists: Seq<Option<u64>>) -> Seq<Option<u64>> {
    if lists.len() > 0 && lists.last() is Some {
        lists.update(
            lists.len() - 1,
            Some(
                if lists.last()->0 == u64::MAX {
                    0
                } else {
                    (lists.last()->0 + 1) as u64
                },
            ),
        )
    } else {
        lists
    }
}

/// Code inside a line.
pub open spec fn inline_code(s: Seq<char>) -> Seq<char> {
    "`"@ + escaped_code(s) + "`"@
}

/// Code on lines of its own.
pub open spec fn fenced(s: Seq<char>) -> Seq<char> {
    "```\n"@ + escaped_code(s) + "\n```"@
}

/// A footnote's label.
pub open spec fn footnote_mark(label: Seq<char>) -> Seq<char> {
    "\\["@ + escaped(label) + "\\]"@
}

impl V2View {
    /// Nothing read yet.
    pub open spec fn start() -> V2View {
        V2View {
            blocks: Seq::empty(),
            cur: Seq::empty(),
            lists: Seq::empty(),
            quote: 0,
            in_code: false,
            link: None,
            link_text: Seq::empty(),
            table: None,
            in_image: false,
        }
    }

    /// The block being written is finished, unless it is blank.
    pub open spec fn flush(self) -> V2View {
        let done = text::trim_end(self.cur);
        V2View {
            blocks: if text::blank(done) {
                self.blocks
            } else if self.quote > 0 {
                self.blocks.push(quoted(done))
            } else {
                self.blocks.push(done)
            },
            cur: Seq::empty(),
            ..self
        }
    }

    /// Text of the document is added, escaped as its place demands.
    pub open spec fn push_text(self, s: Seq<char>) -> V2View {
        if self.in_image {
            self
        } else if self.table is Some {
            V2View {
                table: Some(TableView { cell: self.table->0.cell + s, ..self.table->0 }),
                ..self
            }
        } else if self.link is Some {
            V2View { link_text: self.link_text + escaped(s), ..self }
        } else if self.in_code {
            V2View { cur: self.cur + escaped_code(s), ..self }
        } else {
            V2View { cur: self.cur + escaped(s), ..self }
        }
    }

    /// Markup is added as it is; images and tables take none.
    pub open spec fn push_raw(self, s: Seq<char>) -> V2View {
        if self.in_image || self.table is Some {
            self
        } else if self.link is Some {
            V2View { link_text: self.link_text + s, ..self }
        } else {
            V2View { cur: self.cur + s, ..self }
        }
    }

    /// A new item starts on a line of its own.
    pub open spec fn newline_for_item(self) -> V2View {
        if self.cur.len() > 0 && self.cur.last() != '\n' {
            V2View { cur: self.cur.push('\n'), ..self }
        } else {
            self
        }
    }

    /// An element without text of its own opens.
    pub open spec fn open(self, tag: MdTag) -> V2View {
        match tag {
            MdTag::Paragraph => if self.lists.len() == 0 && self.table is None {
                self.flush()
            } else if self.lists.len() > 0 && self.cur.len() > 0 && self.cur.last() != '\n'
                && self.cur.last() != ' ' {
                V2View { cur: self.cur.push('\n'), ..self }
            } else {
                self
            },
            MdTag::Heading => self.flush().push_raw("*"@),
            MdTag::BlockQuote => {
                let f = self.flush();
                V2View { quote: f.quote + 1, ..f }
            },
            MdTag::Item => {
                let n = self.newline_for_item();
                V2View { lists: counted(n.lists), ..n }.push_raw(item_marker(n.lists))
            },
            MdTag::Emphasis => self.push_raw("_"@),
            MdTag::Strong => self.push_raw("*"@),
            MdTag::Strikethrough => self.push_raw("~"@),
            MdTag::Image => V2View { in_image: true, ..self },
            MdTag::Table => V2View {
                table: Some(
                    TableView { rows: Seq::empty(), cell: Seq::empty(), in_head: false },
                ),
                ..self.flush()
            },
            MdTag::TableHead => self.with_row(true),
            MdTag::TableRow => self.with_row(false),
            MdTag::TableCell => match self.table {
                Some(t) => V2View {
                    table: Some(TableView { cell: Seq::empty(), ..t }),
                    ..self
                },
                None => self,
            },
            _ => self,
        }
    }

    /// The open table gets a row.
    pub open spec fn with_row(self, head: bool) -> V2View {
        match self.table {
            Some(t) => V2View {
                table: Some(
                    TableView {
                        rows: t.rows.push(Seq::empty()),
                        in_head: t.in_head || head,
                        ..t
                    },
                ),
                ..self
            },
            None => self,
        }
    }

    /// The open table's cell goes into its last row.
    pub open spec fn with_cell(self) -> V2View {
        match self.table {
            Some(t) => V2View {
                table: Some(
                    TableView {
                        rows: if t.rows.len() > 0 {
                            t.rows.update(
                                t.rows.len() - 1,
                                t.rows.last().push(text::trim(t.cell)),
                            )
                        } else {
                            t.rows
                        },
                        cell: Seq::empty(),
                        ..t
                    },
                ),
                ..self
            },
            None => self,
        }
    }

    /// A code block opens.
    pub open spec fn open_code(self, info: Seq<char>) -> V2View {
        V2View { in_code: true, ..self.flush() }.push_raw(fence_line(info))
    }

    /// A list opens.
    pub open spec fn open_list(self, first: Option<u64>) -> V2View {
        let f = if self.lists.len() == 0 {
            self.flush()
        } else {
            self
        };
        V2View { lists: f.lists.push(first), ..f }
    }

    /// An element closes.
    pub open spec fn close(self, tag: MdTag) -> V2View {
        match tag {
            MdTag::Paragraph => if self.lists.len() == 0 && self.table is None {
                self.flush()
            } else {
                self
            },
            MdTag::Heading => self.push_raw("*"@).flush(),
            MdTag::BlockQuote => {
                let f = self.flush();
                V2View {
                    quote: if f.quote > 0 {
                        (f.quote - 1) as nat
                    } else {
                        0
                    },
                    ..f
                }
            },
            MdTag::CodeBlock => {
                let n = if self.cur.len() > 0 && self.cur.last() == '\n' {
                    self
                } else {
                    V2View { cur: self.cur.push('\n'), ..self }
                };
                V2View { in_code: false, ..n.push_raw("```"@) }.flush()
            },
            MdTag::List => {
                let p = V2View {
                    lists: if self.lists.len() > 0 {
                        self.lists.drop_last()
                    } else {
                        self.lists
                    },
                    ..self
                };
                if p.lists.len() == 0 {
                    p.flush()
                } else {
                    p
                }
            },
            MdTag::Emphasis => self.push_raw("_"@),
            MdTag::Strong => self.push_raw("*"@),
            MdTag::Strikethrough => self.push_raw("~"@),
            MdTag::Link => match self.link {
                Some(url) => V2View {
                    link: None,
                    link_text: Seq::empty(),
                    cur: self.cur + link_piece(url, self.link_text),
                    ..self
                },
                None => self,
            },
            MdTag::Image => V2View { in_image: false, ..self },
            MdTag::Table => match self.table {
                Some(t) => V2View {
                    table: None,
                    cur: self.cur + fenced(table_text(t.rows)),
                    ..self
                }.flush(),
                None => self,
            },
            MdTag::TableHead => match self.table {
                Some(t) => V2View { table: Some(TableView { in_head: false, ..t }), ..self },
                None => self,
            },
            MdTag::TableCell => self.with_cell(),
            MdTag::FootnoteDefinition => self.flush(),
            _ => self,
        }
    }

    /// One event.
    pub open spec fn step(self, event: markdown::MdEventView) -> V2View {
        match event {
            markdown::MdEventView::StartCode(info) => self.open_code(info),
            markdown::MdEventView::StartList(first) => self.open_list(first),
            markdown::MdEventView::StartLink(url) => V2View {
                link: Some(url),
                link_text: Seq::empty(),
                ..self
            },
            markdown::MdEventView::StartFootnote(label) => self.flush().push_raw(
                footnote_mark(label) + " "@,
            ),
            markdown::MdEventView::Start(tag) => self.open(tag),
            markdown::MdEventView::End(tag) => self.close(tag),
            markdown::MdEventView::Text(s) => self.push_text(s),
            markdown::MdEventView::Code(s) => if self.table is Some {
                self.push_text(s)
            } else {
                self.push_raw(inline_code(s))
            },
            markdown::MdEventView::Html(s) => self.push_text(s),
            markdown::MdEventView::InlineHtml(s) => self.push_text(s),
            markdown::MdEventView::FootnoteReference(label) => self.push_raw(footnote_mark(label)),
            markdown::MdEventView::InlineMath(s) => self.push_raw(inline_code(s)),
            markdown::MdEventView::DisplayMath(s) => self.flush().push_raw(fenced(s)).flush(),
            markdown::MdEventView::SoftBreak => if self.table is Some {
                self.push_text(" "@)
            } else {
                self.push_raw("\n"@)
            },
            markdown::MdEventView::HardBreak => self.push_raw("\n"@),
            markdown::MdEventView::Rule => {
                let f = self.flush();
                V2View { blocks: f.blocks.push("———"@), ..f }
            },
            markdown::MdEventView::TaskListMarker(done) => self.push_raw(
                if done {
                    "☑ "@
                } else {
                    "☐ "@
                },
            ),
        }
    }

    /// All of `events`, in order.
    pub open spec fn run(self, events: Seq<markdown::MdEventView>) -> V2View
        decreases events.len(),
    {
        if events.len() == 0 {
            self
        } else {
            self.run(events.drop_last()).step(events.last())
        }
    }
}

/// The blocks that a list of events renders to.
pub open spec fn rendered(events: Seq<markdown::MdEventView>) -> Seq<Seq<char>> {
    V2View::start().run(events).flush().blocks
}

/// A table being read.
struct TableState {
    rows: Vec<Vec<String>>,
    cell: String,
    in_head: bool,
}

impl View for TableState {
    type V = TableView;

    closed spec fn view(&self) -> TableView {
        TableView { rows: row_views(self.rows@), cell: self.cell@, in_head: self.in_head }
    }
}

/// The machine's state.
struct V2 {
    blocks: Vec<String>,
    cur: String,
    lists: Vec<Option<u64>>,
    quote: usize,
    in_code: bool,
    link: Option<String>,
    link_text: String,
    table: Option<TableState>,
    in_image: bool,
}

impl View for V2 {
    type V = V2View;

    closed spec fn view(&self) -> V2View {
        V2View {
            blocks: text::views(self.blocks@),
            cur: self.cur@,
            lists: self.lists@,
            quote: self.quote as nat,
            in_code: self.in_code,
            link: text::opt_view(self.link),
            link_text: self.link_text@,
            table: match self.table {
                Some(t) => Some(t@),
                None => None,
            },
            in_image: self.in_image,
        }
    }
}

/// Puts a `>` before each line.
fn quote_lines(s: &str) -> (r: String)
    ensures
        r@ == quoted(s@),
{
    let list = text::line_list(s);
    let ghost want = text::lines(s@).map_values(|l: Seq<char>| seq!['>'] + l);
    let mut out: Vec<String> = Vec::new();
    let mut i: usize = 0;
    while i < list.len()
        invariant
            i <= list@.len(),
            text::views(list@) == text::lines(s@),
            want == text::lines(s@).map_values(|l: Seq<char>| seq!['>'] + l),
            text::views(out@) == want.take(i as int),
        decreases list@.len() - i,
    {
        let mut line: String = String::new();
        line.push('>');
        line.append(list[i].as_str());
        proof {
            assert(list@[i as int]@ == text::views(list@)[i as int]);
            assert(line@ =~= want[i as int]);
            text::lemma_views_push(out@, line);
            assert(want.take(i + 1) =~= want.take(i as int).push(line@));
        }
        out.push(line);
        i = i + 1;
    }
    assert(want.take(i as int) =~= want);
    text::join_list(&out, "\n")
}

/// The last character.
fn last_char(s: &str) -> (c: Option<char>)
    ensures
        c == (if s@.len() > 0 {
            Some(s@.last())
        } else {
            None
        }),
{
    let v = text::chars_of(s);
    if v.len() > 0 {
        Some(v[v.len() - 1])
    } else {
        None
    }
}

/// The opening line of a code block.
fn open_fence(info: &str) -> (r: String)
    ensures
        r@ == fence_line(info@),
{
    let v = text::chars_of(info);
    let ghost keep = |c: char| is_lang_char(c);
    let mut lang: String = String::new();
    let mut i: usize = 0;
    while i < v.len()
        invariant
            i <= v@.len(),
            v@ == info@,
            keep == (|c: char| is_lang_char(c)),
            lang@ == v@.take(i as int).filter(keep),
        decreases v@.len() - i,
    {
        let c = v[i];
        proof {
            assert(v@.take(i + 1) =~= v@.take(i as int).push(c));
            v@.take(i as int).lemma_filter_push(c, keep);
        }
        if ('A' <= c && c <= 'Z') || ('a' <= c && c <= 'z') || ('0' <= c && c <= '9') || c == '_'
            || c == '-' || c == '+' {
            lang.push(c);
        }
        i = i + 1;
    }
    assert(v@.take(i as int) =~= info@);
    let mut r: String = "```".to_string();
    r.append(lang.as_str());
    r.append("\n");
    r
}

/// A link with its text.
fn make_link(url: &str, link_text: &str) -> (r: String)
    ensures
        r@ == link_piece(url@, link_text@),
{
    let shown = if text::is_blank(link_text) {
        escape_v2(url)
    } else {
        link_text.to_string()
    };
    if text::starts_with(url, "http://") || text::starts_with(url, "https://")
        || text::starts_with(url, "tg://") {
        let mut r: String = "[".to_string();
        r.append(shown.as_str());
        r.append("](");
        r.append(escape_v2_url(url).as_str());
        r.append(")");
        r
    } else {
        shown
    }
}

/// Code on lines of its own.
fn fence(s: &str) -> (r: String)
    ensures
        r@ == fenced(s@),
{
    let mut r: String = "```\n".to_string();
    r.append(escape_v2_code(s).as_str());
    r.append("\n```");
    r
}

/// Code inside a line.
fn code_span(s: &str) -> (r: String)
    ensures
        r@ == inline_code(s@),
{
    let mut r: String = "`".to_string();
    r.append(escape_v2_code(s).as_str());
    r.append("`");
    r
}

/// A footnote's label.
fn mark_footnote(label: &str) -> (r: String)
    ensures
        r@ == footnote_mark(label@),
{
    let mut r: String = "\\[".to_string();
    r.append(escape_v2(label).as_str());
    r.append("\\]");
    r
}

impl V2 {
    fn new() -> (r: V2)
        ensures
            r@ == V2View::start(),
            r.quote == 0,
    {
        let r = V2 {
            blocks: Vec::new(),
            cur: String::new(),
            lists: Vec::new(),
            quote: 0,
            in_code: false,
            link: None,
            link_text: String::new(),
            table: None,
            in_image: false,
        };
        assert(text::views(r.blocks@) =~= Seq::<Seq<char>>::empty());
        r
    }

    fn flush(&mut self)
        ensures
            final(self)@ == old(self)@.flush(),
            final(self).quote == old(self).quote,
    {
        let done = text::trimmed_end(self.cur.as_str());
        if !text::is_blank(done.as_str()) {
            let block = if self.quote > 0 {
                quote_lines(done.as_str())
            } else {
                done
            };
            proof {
                text::lemma_views_push(self.blocks@, block);
            }
            self.blocks.push(block);
        }
        self.cur = String::new();
    }

    fn push_text(&mut self, s: &str)
        ensures
            final(self)@ == old(self)@.push_text(s@),
            final(self).quote == old(self).quote,
    {
        if self.in_image {
            return;
        }
        if self.table.is_some() {
            match &mut self.table {
                Some(t) => {
                    t.cell.append(s);
                },
                None => {},
            }
            return;
        }
        if self.link.is_some() {
            self.link_text.append(escape_v2(s).as_str());
            return;
        }
        if self.in_code {
            self.cur.append(escape_v2_code(s).as_str());
        } else {
            self.cur.append(escape_v2(s).as_str());
        }
    }

    fn push_raw(&mut self, s: &str)
        ensures
            final(self)@ == old(self)@.push_raw(s@),
            final(self).quote == old(self).quote,
    {
        if self.in_image || self.table.is_some() {
            return;
        }
        if self.link.is_some() {
            self.link_text.append(s);
        } else {
            self.cur.append(s);
        }
    }

    fn newline_for_item(&mut self)
        ensures
            final(self)@ == old(self)@.newline_for_item(),
            final(self).quote == old(self).quote,
    {
        match last_char(self.cur.as_str()) {
            Some(c) => {
                if c != '\n' {
                    self.cur.push('\n');
                }
            },
            None => {},
        }
    }

    fn add_row(&mut self, head: bool)
        ensures
            final(self)@ == old(self)@.with_row(head),
            final(self).quote == old(self).quote,
    {
        match &mut self.table {
            Some(t) => {
                let row: Vec<String> = Vec::new();
                proof {
                    assert(text::views(row@) =~= Seq::<Seq<char>>::empty());
                    assert(row_views(t.rows@.push(row)) =~= row_views(t.rows@).push(
                        text::views(row@),
                    ));
                }
                t.rows.push(row);
                t.in_head = t.in_head || head;
            },
            None => {},
        }
    }

    fn add_cell(&mut self)
        ensures
            final(self)@ == old(self)@.with_cell(),
            final(self).quote == old(self).quote,
    {
        match &mut self.table {
            Some(t) => {
                let cell = text::trimmed(t.cell.as_str());
                let n: usize = t.rows.len();
                if n > 0 {
                    let ghost rows = t.rows@;
                    let mut row = t.rows.pop().unwrap();
                    proof {
                        text::lemma_views_push(row@, cell);
                    }
                    row.push(cell);
                    t.rows.push(row);
                    proof {
                        assert(row_views(t.rows@) =~= row_views(rows).update(
                            n - 1,
                            row_views(rows).last().push(cell@),
                        ));
                    }
                }
                t.cell = String::new();
            },
            None => {},
        }
    }

    fn next_item(&mut self)
        ensures
            final(self)@ == old(self)@.open(MdTag::Item),
            final(self).quote == old(self).quote,
    {
        self.newline_for_item();
        let n: usize = self.lists.len();
        let mut marker: String = text::repeated(
            "  ",
            if n > 0 {
                n - 1
            } else {
                0
            },
        );
        let ghost before = self@.lists;
        let next: Option<u64> = if n > 0 {
            self.lists[n - 1]
        } else {
            None
        };
        match next {
            Some(k) => {
                let mut m = text::decimal_of(k);
                m.append("\\. ");
                marker.append(m.as_str());
                self.lists.set(n - 1, Some(k.wrapping_add(1)));
            },
            None => {
                marker.append("• ");
            },
        }
        assert(marker@ =~= item_marker(before));
        assert(self@.lists =~= counted(before));
        self.push_raw(marker.as_str());
    }

    fn open_paragraph(&mut self)
        ensures
            final(self)@ == old(self)@.open(MdTag::Paragraph),
            final(self).quote == old(self).quote,
    {
        if self.lists.len() == 0 && self.table.is_none() {
            self.flush();
        } else if self.lists.len() > 0 {
            match last_char(self.cur.as_str()) {
                Some(c) => {
                    if c != '\n' && c != ' ' {
                        self.cur.push('\n');
                    }
                },
                None => {},
            }
        }
    }

    fn open(&mut self, tag: MdTag)
        requires
            old(self).quote < usize::MAX,
        ensures
            final(self)@ == old(self)@.open(tag),
            final(self).quote <= old(self).quote + 1,
    {
        match tag {
            MdTag::Paragraph => self.open_paragraph(),
            MdTag::Heading => {
                self.flush();
                self.push_raw("*");
            },
            MdTag::BlockQuote => {
                self.flush();
                self.quote = self.quote + 1;
            },
            MdTag::Item => self.next_item(),
            MdTag::Emphasis => self.push_raw("_"),
            MdTag::Strong => self.push_raw("*"),
            MdTag::Strikethrough => self.push_raw("~"),
            MdTag::Image => {
                self.in_image = true;
            },
            MdTag::Table => {
                self.flush();
                let rows: Vec<Vec<String>> = Vec::new();
                assert(row_views(rows@) =~= Seq::<Seq<Seq<char>>>::empty());
                self.table = Some(TableState { rows, cell: String::new(), in_head: false });
            },
            MdTag::TableHead => self.add_row(true),
            MdTag::TableRow => self.add_row(false),
            MdTag::TableCell => {
                match &mut self.table {
                    Some(t) => {
                        t.cell = String::new();
                    },
                    None => {},
                }
            },
            _ => {},
        }
    }

    fn close_code(&mut self)
        ensures
            final(self)@ == old(self)@.close(MdTag::CodeBlock),
            final(self).quote == old(self).quote,
    {
        match last_char(self.cur.as_str()) {
            Some(c) => {
                if c != '\n' {
                    self.cur.push('\n');
                }
            },
            None => {
                self.cur.push('\n');
            },
        }
        self.push_raw("```");
        self.in_code = false;
        self.flush();
    }

    fn close_link(&mut self)
        ensures
            final(self)@ == old(self)@.close(MdTag::Link),
            final(self).quote == old(self).quote,
    {
        match self.link.take() {
            Some(url) => {
                let piece = make_link(url.as_str(), self.link_text.as_str());
                self.link_text = String::new();
                self.cur.append(piece.as_str());
            },
            None => {},
        }
    }

    fn close_table(&mut self)
        ensures
            final(self)@ == old(self)@.close(MdTag::Table),
            final(self).quote == old(self).quote,
    {
        match self.table.take() {
            Some(t) => {
                let drawn = render_table_monospace(&t.rows);
                self.cur.append(fence(drawn.as_str()).as_str());
                self.flush();
            },
            None => {},
        }
    }

    fn close(&mut self, tag: MdTag)
        ensures
            final(self)@ == old(self)@.close(tag),
            final(self).quote <= old(self).quote,
    {
        match tag {
            MdTag::Paragraph => {
                if self.lists.len() == 0 && self.table.is_none() {
                    self.flush();
                }
            },
            MdTag::Heading => {
                self.push_raw("*");
                self.flush();
            },
            MdTag::BlockQuote => {
                self.flush();
                if self.quote > 0 {
                    self.quote = self.quote - 1;
                }
            },
            MdTag::CodeBlock => self.close_code(),
            MdTag::List => {
                self.lists.pop();
                if self.lists.len() == 0 {
                    self.flush();
                }
            },
            MdTag::Emphasis => self.push_raw("_"),
            MdTag::Strong => self.push_raw("*"),
            MdTag::Strikethrough => self.push_raw("~"),
            MdTag::Link => self.close_link(),
            MdTag::Image => {
                self.in_image = false;
            },
            MdTag::Table => self.close_table(),
            MdTag::TableHead => {
                match &mut self.table {
                    Some(t) => {
                        t.in_head = false;
                    },
                    None => {},
                }
            },
            MdTag::TableCell => self.add_cell(),
            MdTag::FootnoteDefinition => self.flush(),
            _ => {},
        }
    }

    fn step(&mut self, event: &MdEvent)
        requires
            old(self).quote < usize::MAX,
        ensures
            final(self)@ == old(self)@.step(event@),
            final(self).quote <= old(self).quote + 1,
    {
        match event {
            MdEvent::StartCode(info) => {
                self.flush();
                self.in_code = true;
                self.push_raw(open_fence(info.as_str()).as_str());
            },
            MdEvent::StartList(first) => {
                if self.lists.len() == 0 {
                    self.flush();
                }
                self.lists.push(*first);
            },
            MdEvent::StartLink(url) => {
                self.link = Some(url.as_str().to_string());
                self.link_text = String::new();
            },
            MdEvent::StartFootnote(label) => {
                self.flush();
                let mut mark = mark_footnote(label.as_str());
                mark.append(" ");
                self.push_raw(mark.as_str());
            },
            MdEvent::Start(tag) => self.open(*tag),
            MdEvent::End(tag) => self.close(*tag),
            MdEvent::Text(s) => self.push_text(s.as_str()),
            MdEvent::Code(s) => {
                if self.table.is_some() {
                    self.push_text(s.as_str());
                } else {
                    self.push_raw(code_span(s.as_str()).as_str());
                }
            },
            MdEvent::Html(s) => self.push_text(s.as_str()),
            MdEvent::InlineHtml(s) => self.push_text(s.as_str()),
            MdEvent::FootnoteReference(label) => {
                self.push_raw(mark_footnote(label.as_str()).as_str());
            },
            MdEvent::InlineMath(s) => self.push_raw(code_span(s.as_str()).as_str()),
            MdEvent::DisplayMath(s) => {
                self.flush();
                self.push_raw(fence(s.as_str()).as_str());
                self.flush();
            },
            MdEvent::SoftBreak => {
                if self.table.is_some() {
                    self.push_text(" ");
                } else {
                    self.push_raw("\n");
                }
            },
            MdEvent::HardBreak => self.push_raw("\n"),
            MdEvent::Rule => {
                self.flush();
                let rule = "———".to_string();
                proof {
                    text::lemma_views_push(self.blocks@, rule);
                }
                self.blocks.push(rule);
            },
            MdEvent::TaskListMarker(done) => {
                if *done {
                    self.push_raw("☑ ");
                } else {
                    self.push_raw("☐ ");
                }
            },
        }
    }
}

/// Renders markdown events to MarkdownV2 blocks.
pub fn render_events(events: &Vec<MdEvent>) -> (blocks: Vec<String>)
    ensures
        text::views(blocks@) == rendered(markdown::event_views(events@)),
{
    let ghost all = markdown::event_views(events@);
    let mut st = V2::new();
    let mut i: usize = 0;
    while i < events.len()
        invariant
            i <= events@.len(),
            all == markdown::event_views(events@),
            st.quote <= i,
            st@ == V2View::start().run(all.take(i as int)),
        decreases events@.len() - i,
    {
        assert(all.take(i + 1).drop_last() =~= all.take(i as int));
        st.step(&events[i]);
        i = i + 1;
    }
    assert(all.take(i as int) =~= all);
    st.flush();
    st.blocks
}

}
