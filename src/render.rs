use vstd::prelude::*;

verus! {

/// Width of the right-aligned field that holds a line number.
pub const NUMBER_WIDTH: usize = 6;

/// The character for a decimal digit `d < 10`.
pub open spec fn digit_char(d: nat) -> char {
    if d == 0 {
        '0'
    } else if d == 1 {
        '1'
    } else if d == 2 {
        '2'
    } else if d == 3 {
        '3'
    } else if d == 4 {
        '4'
    } else if d == 5 {
        '5'
    } else if d == 6 {
        '6'
    } else if d == 7 {
        '7'
    } else if d == 8 {
        '8'
    } else {
        '9'
    }
}

/// Decimal notation of `n`, most significant digit first, without leading zeros.
pub open spec fn decimal(n: nat) -> Seq<char>
    decreases n,
{
    if n < 10 {
        seq![digit_char(n)]
    } else {
        decimal(n / 10).push(digit_char(n % 10))
    }
}

/// `s` preceded by spaces up to `width` characters; `s` itself when it is
/// already that wide.
pub open spec fn pad_left(s: Seq<char>, width: nat) -> Seq<char> {
    if s.len() < width {
        Seq::new((width - s.len()) as nat, |i: int| ' ') + s
    } else {
        s
    }
}

/// The prefix of a numbered line: the number right-aligned in the number
/// field, then a tab.
pub open spec fn number_prefix(n: nat) -> Seq<char> {
    pad_left(decimal(n), NUMBER_WIDTH as nat).push('\t')
}

fn append_digit(out: &mut String, d: u64)
    requires
        d < 10,
    ensures
        final(out)@ == old(out)@.push(digit_char(d as nat)),
{
    proof {
        reveal_strlit("0");
        reveal_strlit("1");
        reveal_strlit("2");
        reveal_strlit("3");
        reveal_strlit("4");
        reveal_strlit("5");
        reveal_strlit("6");
        reveal_strlit("7");
        reveal_strlit("8");
        reveal_strlit("9");
    }
    let s = if d == 0 {
        "0"
    } else if d == 1 {
        "1"
    } else if d == 2 {
        "2"
    } else if d == 3 {
        "3"
    } else if d == 4 {
        "4"
    } else if d == 5 {
        "5"
    } else if d == 6 {
        "6"
    } else if d == 7 {
        "7"
    } else if d == 8 {
        "8"
    } else {
        "9"
    };
    out.append(s);
    assert(final(out)@ =~= old(out)@.push(digit_char(d as nat)));
}

/// Appends the decimal notation of `n` to `out`.
pub fn append_decimal(out: &mut String, n: u64)
    ensures
        final(out)@ == old(out)@ + decimal(n as nat),
    decreases n,
{
    if n < 10 {
        append_digit(out, n);
        assert(final(out)@ =~= old(out)@ + decimal(n as nat));
    } else {
        append_decimal(out, n / 10);
        append_digit(out, n % 10);
        assert(final(out)@ =~= old(out)@ + decimal(n as nat));
    }
}

/// Number of digits in the decimal notation of `n`.
pub fn decimal_len(n: u64) -> (r: u64)
    ensures
        r as nat == decimal(n as nat).len(),
        1 <= r <= 1 + n / 10,
    decreases n,
{
    if n < 10 {
        1
    } else {
        let k = decimal_len(n / 10);
        let m = n / 10;
        assert(m / 10 + 1 <= m) by (nonlinear_arith)
            requires
                m >= 1,
        ;
        k + 1
    }
}

/// Appends the prefix of a line that carries the number `n`.
pub fn append_number_prefix(out: &mut String, n: u64)
    ensures
        final(out)@ == old(out)@ + number_prefix(n as nat),
{
    let width = decimal_len(n);
    let ghost start = out@;
    let mut pad: usize = 0;
    if width < NUMBER_WIDTH as u64 {
        pad = NUMBER_WIDTH - width as usize;
    }
    let mut i: usize = 0;
    while i < pad
        invariant
            i <= pad,
            out@ == start + Seq::new(i as nat, |j: int| ' '),
        decreases pad - i,
    {
        proof {
            reveal_strlit(" ");
        }
        out.append(" ");
        i = i + 1;
        assert(out@ =~= start + Seq::new(i as nat, |j: int| ' '));
    }
    append_decimal(out, n);
    proof {
        reveal_strlit("\t");
    }
    out.append("\t");
    assert(final(out)@ =~= old(out)@ + number_prefix(n as nat));
}

/// Which lines of a source receive a number.
#[derive(Clone, Copy, Debug, PartialEq, Eq, Structural)]
pub enum Numbering {
    NoNumbering,
    NumberAll,
    NumberNonBlank,
}

/// Whether `line` receives a number under `mode`.
pub open spec fn takes_number(mode: Numbering, line: Seq<char>) -> bool {
    match mode {
        Numbering::NoNumbering => false,
        Numbering::NumberAll => true,
        Numbering::NumberNonBlank => line.len() > 0,
    }
}

/// The output for one line: its prefix when it takes the number `n`, its
/// content, and a newline.
pub open spec fn rendered_line(mode: Numbering, n: nat, line: Seq<char>) -> Seq<char> {
    if takes_number(mode, line) {
        number_prefix(n) + line.push('\n')
    } else {
        line.push('\n')
    }
}

/// How many of `lines` receive a number under `mode`.
pub open spec fn numbered_count(mode: Numbering, lines: Seq<Seq<char>>) -> nat
    decreases lines.len(),
{
    if lines.len() == 0 {
        0
    } else {
        numbered_count(mode, lines.drop_last()) + if takes_number(mode, lines.last()) {
            1nat
        } else {
            0nat
        }
    }
}

/// The output for a whole source read as `lines`: the counter starts at 1,
/// and each line that takes a number takes the counter, then advances it.
pub open spec fn rendered(mode: Numbering, lines: Seq<Seq<char>>) -> Seq<char>
    decreases lines.len(),
{
    if lines.len() == 0 {
        seq![]
    } else {
        rendered(mode, lines.drop_last()) + rendered_line(
            mode,
            numbered_count(mode, lines.drop_last()) + 1,
            lines.last(),
        )
    }
}

/// The numbering state while one source is written: the mode, and the number
/// that the next numbered line takes.
pub struct LineNumberer {
    mode: Numbering,
    next: u64,
}

impl LineNumberer {
    pub closed spec fn mode(&self) -> Numbering {
        self.mode
    }

    /// The number that the next numbered line takes.
    pub closed spec fn next_number(&self) -> nat {
        self.next as nat
    }

    /// The state at the start of a source: the counter is at 1.
    pub fn new(mode: Numbering) -> (r: LineNumberer)
        ensures
            r.mode() == mode,
            r.next_number() == 1,
    {
        LineNumberer { mode, next: 1 }
    }

    /// Whether the counter can still advance.
    pub fn has_room(&self) -> (r: bool)
        ensures
            r == (self.next_number() < u64::MAX),
    {
        self.next < u64::MAX
    }

    /// The output for `line`; the counter advances when the line takes a
    /// number.
    pub fn render_line(&mut self, line: &str) -> (r: String)
        requires
            old(self).next_number() < u64::MAX,
        ensures
            r@ == rendered_line(old(self).mode(), old(self).next_number(), line@),
            final(self).mode() == old(self).mode(),
            final(self).next_number() == old(self).next_number() + if takes_number(
                old(self).mode(),
                line@,
            ) {
                1nat
            } else {
                0nat
            },
    {
        let mut out = String::new();
        let numbered = match self.mode {
            Numbering::NoNumbering => false,
            Numbering::NumberAll => true,
            Numbering::NumberNonBlank => !line.is_empty(),
        };
        if numbered {
            append_number_prefix(&mut out, self.next);
            self.next = self.next + 1;
        }
        out.append(line);
        proof {
            reveal_strlit("\n");
        }
        out.append("\n");
        assert(out@ =~= rendered_line(old(self).mode(), old(self).next_number(), line@));
        out
    }
}

/// The output for a source read as `lines`, each line followed by a newline
/// and numbered as `mode` asks.
pub fn render_lines(mode: Numbering, lines: &Vec<String>) -> (r: String)
    requires
        lines@.len() < u64::MAX,
    ensures
        r@ == rendered(mode, lines@.map_values(|l: String| l@)),
{
    let ghost src = lines@.map_values(|l: String| l@);
    let mut numberer = LineNumberer::new(mode);
    let mut out = String::new();
    let mut i: usize = 0;
    while i < lines.len()
        invariant
            i <= lines@.len() < u64::MAX,
            src == lines@.map_values(|l: String| l@),
            numberer.mode() == mode,
            numberer.next_number() == numbered_count(mode, src.take(i as int)) + 1,
            numbered_count(mode, src.take(i as int)) <= i,
            out@ == rendered(mode, src.take(i as int)),
        decreases lines@.len() - i,
    {
        assert(src.take(i as int + 1).drop_last() =~= src.take(i as int));
        assert(src.take(i as int + 1).last() == lines@[i as int]@);
        let piece = numberer.render_line(lines[i].as_str());
        out.append(piece.as_str());
        i = i + 1;
    }
    assert(src.take(lines@.len() as int) =~= src);
    out
}

} // verus!
