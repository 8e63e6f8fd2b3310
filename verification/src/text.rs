//! Text for the terminal: decimal numbers, padding to a width counted in
//! characters, and spans of text that carry a colour class.

use vstd::prelude::*;

verus! {

/// The colour class of a day.
#[derive(Clone, Copy, Debug, PartialEq, Eq, Structural, Hash)]
pub enum ColorTag {
    Holiday,
    Sunday,
    Saturday,
    Weekday,
}

/// A colour of the terminal.
#[derive(Clone, Copy, Debug, PartialEq, Eq, Structural, Hash)]
pub enum Colour {
    Red,
    Blue,
    White,
}

/// The colour that a class is shown in: holidays and Sundays in red,
/// Saturdays in blue, weekdays in white.
pub open spec fn colour_of(tag: ColorTag) -> Colour {
    match tag {
        ColorTag::Holiday => Colour::Red,
        ColorTag::Sunday => Colour::Red,
        ColorTag::Saturday => Colour::Blue,
        ColorTag::Weekday => Colour::White,
    }
}

impl ColorTag {
    /// The colour that the class is shown in.
    pub fn colour(&self) -> (r: Colour)
        ensures
            r == colour_of(*self),
    {
        match self {
            ColorTag::Holiday => Colour::Red,
            ColorTag::Sunday => Colour::Red,
            ColorTag::Saturday => Colour::Blue,
            ColorTag::Weekday => Colour::White,
        }
    }
}

/// The decimal digit `d`, for `d` from 0 to 9.
pub open spec fn digit_char(d: int) -> char {
    if d == 0 {
        '0'
    } else if d == 1 {
        '1'
    } else if d == 2 {
        '2'
    } else if d == 3 {
        '3'
    } else if d == 4 {
        '4'
    } else if d == 5 {
        '5'
    } else if d == 6 {
        '6'
    } else if d == 7 {
        '7'
    } else if d == 8 {
        '8'
    } else {
        '9'
    }
}

/// The decimal digits of `n`, without leading zeros.
pub open spec fn decimal(n: nat) -> Seq<char>
    decreases n,
{
    if n < 10 {
        seq![digit_char(n as int)]
    } else {
        decimal(n / 10).push(digit_char((n % 10) as int))
    }
}

/// `n` blanks.
pub open spec fn spaces(n: int) -> Seq<char> {
    Seq::new(
        if n < 0 {
            0
        } else {
            n as nat
        },
        |i: int| ' ',
    )
}

/// `s` followed by the blanks that bring it to `width` characters; `s`
/// itself where it is as long or longer.
pub open spec fn pad_right(s: Seq<char>, width: int) -> Seq<char> {
    s + spaces(width - s.len())
}

/// `s` preceded by the blanks that bring it to `width` characters; `s`
/// itself where it is as long or longer.
pub open spec fn pad_left(s: Seq<char>, width: int) -> Seq<char> {
    spaces(width - s.len()) + s
}

/// One decimal digit as text.
pub fn digit_text(d: u32) -> (r: &'static str)
    requires
        d < 10,
    ensures
        r@ == seq![digit_char(d as int)],
{
    proof {
        reveal_strlit("0");
        reveal_strlit("1");
        reveal_strlit("2");
        reveal_strlit("3");
        reveal_strlit("4");
        reveal_strlit("5");
        reveal_strlit("6");
        reveal_strlit("7");
        reveal_strlit("8");
        reveal_strlit("9");
    }
    let r = if d == 0 {
        "0"
    } else if d == 1 {
        "1"
    } else if d == 2 {
        "2"
    } else if d == 3 {
        "3"
    } else if d == 4 {
        "4"
    } else if d == 5 {
        "5"
    } else if d == 6 {
        "6"
    } else if d == 7 {
        "7"
    } else if d == 8 {
        "8"
    } else {
        "9"
    };
    r
}

/// `n` in decimal.
pub fn decimal_text(n: u32) -> (r: String)
    ensures
        r@ == decimal(n as nat),
    decreases n,
{
    if n < 10 {
        String::from_str(digit_text(n))
    } else {
        let mut s = decimal_text(n / 10);
        s.append(digit_text(n % 10));
        s
    }
}

/// A run of `n` blanks.
pub fn blanks(n: usize) -> (r: String)
    ensures
        r@ == spaces(n as int),
{
    let mut r = String::new();
    let mut i: usize = 0;
    while i < n
        invariant
            i <= n,
            r@ == spaces(i as int),
        decreases n - i,
    {
        proof {
            reveal_strlit(" ");
        }
        r.append(" ");
        i = i + 1;
    }
    r
}

/// `s` left-justified in `width` characters.
pub fn padded_right(s: &str, width: usize) -> (r: String)
    ensures
        r@ == pad_right(s@, width as int),
{
    let len = s.unicode_len();
    let mut r = String::from_str(s);
    if len < width {
        let fill = blanks(width - len);
        r.append(fill.as_str());
    }
    r
}

/// `s` right-justified in `width` characters.
pub fn padded_left(s: &str, width: usize) -> (r: String)
    ensures
        r@ == pad_left(s@, width as int),
{
    let len = s.unicode_len();
    let mut r = if len < width {
        blanks(width - len)
    } else {
        String::new()
    };
    r.append(s);
    r
}

/// A piece of text with the colour class it is shown in, if it has one, and
/// whether it is shown emphasized.
#[derive(Clone, Debug, PartialEq, Eq)]
pub struct Span {
    pub text: String,
    pub tag: Option<ColorTag>,
    pub emphasized: bool,
}

/// What a [`Span`] holds.
pub struct SpanView {
    pub text: Seq<char>,
    pub tag: Option<ColorTag>,
    pub emphasized: bool,
}

impl View for Span {
    type V = SpanView;

    open spec fn view(&self) -> SpanView {
        SpanView { text: self.text@, tag: self.tag, emphasized: self.emphasized }
    }
}

/// Text without colour or emphasis.
pub open spec fn plain_span(text: Seq<char>) -> SpanView {
    SpanView { text, tag: None, emphasized: false }
}

/// Text in the colour of `tag`, without emphasis.
pub open spec fn tagged_span(text: Seq<char>, tag: ColorTag) -> SpanView {
    SpanView { text, tag: Some(tag), emphasized: false }
}

/// What a line of spans holds.
pub open spec fn line_view(line: Seq<Span>) -> Seq<SpanView> {
    Seq::new(line.len(), |i: int| line[i]@)
}

/// What a block of lines holds.
pub open spec fn block_view(lines: Seq<Vec<Span>>) -> Seq<Seq<SpanView>> {
    Seq::new(lines.len(), |i: int| line_view(lines[i]@))
}

/// The characters of a line, colours left aside.
pub open spec fn line_chars(line: Seq<SpanView>) -> Seq<char>
    decreases line.len(),
{
    if line.len() == 0 {
        Seq::empty()
    } else {
        line_chars(line.drop_last()) + line.last().text
    }
}

impl Span {
    /// A span without colour or emphasis.
    pub fn plain(text: String) -> (r: Span)
        ensures
            r@ == plain_span(text@),
    {
        Span { text, tag: None, emphasized: false }
    }

    /// A span in the colour of `tag`, without emphasis.
    pub fn tagged(text: String, tag: ColorTag) -> (r: Span)
        ensures
            r@ == tagged_span(text@, tag),
    {
        Span { text, tag: Some(tag), emphasized: false }
    }
}

/// The text of a line as it reads without colours.
pub fn line_text(line: &Vec<Span>) -> (r: String)
    ensures
        r@ == line_chars(line_view(line@)),
{
    let mut r = String::new();
    let mut i: usize = 0;
    while i < line.len()
        invariant
            i <= line.len(),
            r@ == line_chars(line_view(line@).take(i as int)),
        decreases line.len() - i,
    {
        r.append(line[i].text.as_str());
        proof {
            let all = line_view(line@);
            assert(all.take(i + 1).drop_last() =~= all.take(i as int));
        }
        i = i + 1;
    }
    assert(line_view(line@).take(i as int) =~= line_view(line@));
    r
}

} // verus!
