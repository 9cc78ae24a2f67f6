//! Names: what a mode is called and what the image of a frame is called on
//! disk.

use vstd::prelude::*;
use vstd::string::*;
use crate::particle::Mode;

verus! {

/// Digits a frame index is padded to in a file name.
pub const INDEX_WIDTH: usize = 3;

/// The character for one decimal digit.
pub open spec fn digit_char(d: int) -> char {
    if d == 0 {
        '0'
    } else if d == 1 {
        '1'
    } else if d == 2 {
        '2'
    } else if d == 3 {
        '3'
    } else if d == 4 {
        '4'
    } else if d == 5 {
        '5'
    } else if d == 6 {
        '6'
    } else if d == 7 {
        '7'
    } else if d == 8 {
        '8'
    } else {
        '9'
    }
}

/// The decimal numeral of `n`, without leading zeros.
pub open spec fn decimal(n: nat) -> Seq<char>
    decreases n,
{
    if n < 10 {
        seq![digit_char(n as int)]
    } else {
        decimal(n / 10).push(digit_char((n % 10) as int))
    }
}

/// The decimal numeral of `n`, with zeros in front until it is `width`
/// characters long. Longer numerals stay as they are.
pub open spec fn padded(n: nat, width: nat) -> Seq<char> {
    let numeral = decimal(n);
    if numeral.len() >= width {
        numeral
    } else {
        Seq::new((width - numeral.len()) as nat, |i: int| '0') + numeral
    }
}

/// What a mode is called on the console.
pub open spec fn mode_name(mode: Mode) -> Seq<char> {
    match mode {
        Mode::Baseline => "NEWTONIAN"@,
        Mode::Dilated => "CHRONOTURIN"@,
    }
}

/// What the file names of a mode's frames begin with.
pub open spec fn mode_prefix(mode: Mode) -> Seq<char> {
    match mode {
        Mode::Baseline => "newton"@,
        Mode::Dilated => "chrono"@,
    }
}

/// The file name of frame `frame` of a pass: the mode's prefix, an
/// underscore, the frame index padded to three digits, and `.png`.
pub open spec fn file_name(mode: Mode, frame: nat) -> Seq<char> {
    mode_prefix(mode) + "_"@ + padded(frame, INDEX_WIDTH as nat) + ".png"@
}

impl Mode {
    /// What the mode is called on the console.
    pub fn name(self) -> (name: &'static str)
        ensures
            name@ == mode_name(self),
    {
        match self {
            Mode::Baseline => "NEWTONIAN",
            Mode::Dilated => "CHRONOTURIN",
        }
    }

    /// What the file names of the mode's frames begin with.
    pub fn file_prefix(self) -> (prefix: &'static str)
        ensures
            prefix@ == mode_prefix(self),
    {
        match self {
            Mode::Baseline => "newton",
            Mode::Dilated => "chrono",
        }
    }
}

fn digit_text(d: u8) -> (text: &'static str)
    requires
        d < 10,
    ensures
        text@ == seq![digit_char(d as int)],
{
    proof {
        reveal_strlit("0");
        reveal_strlit("1");
        reveal_strlit("2");
        reveal_strlit("3");
        reveal_strlit("4");
        reveal_strlit("5");
        reveal_strlit("6");
        reveal_strlit("7");
        reveal_strlit("8");
        reveal_strlit("9");
    }
    let text = match d {
        0 => "0",
        1 => "1",
        2 => "2",
        3 => "3",
        4 => "4",
        5 => "5",
        6 => "6",
        7 => "7",
        8 => "8",
        _ => "9",
    };
    assert(text@ =~= seq![digit_char(d as int)]);
    text
}

/// The decimal numeral of `n`.
pub fn decimal_text(n: u32) -> (text: String)
    ensures
        text@ == decimal(n as nat),
    decreases n,
{
    if n < 10 {
        String::from_str(digit_text(n as u8))
    } else {
        let mut text = decimal_text(n / 10);
        text.append(digit_text((n % 10) as u8));
        assert(text@ =~= decimal((n / 10) as nat).push(digit_char((n % 10) as int)));
        text
    }
}

/// The decimal numeral of `n`, padded with zeros to `width` characters.
pub fn padded_text(n: u32, width: usize) -> (text: String)
    ensures
        text@ == padded(n as nat, width as nat),
{
    let numeral = decimal_text(n);
    let length: usize = numeral.as_str().unicode_len();
    let mut text = String::new();
    let mut written: usize = length;
    while written < width
        invariant
            length <= written,
            length == numeral@.len(),
            written <= width || written == length,
            text@ == Seq::new((written - length) as nat, |i: int| '0'),
        decreases width - written,
    {
        proof {
            reveal_strlit("0");
        }
        text.append("0");
        written += 1;
        assert(text@ =~= Seq::new((written - length) as nat, |i: int| '0'));
    }
    text.append(numeral.as_str());
    proof {
        if length >= width {
            assert(text@ =~= numeral@);
        }
    }
    text
}

/// The file name of frame `frame` of a pass in the given mode.
pub fn frame_file_name(mode: Mode, frame: u32) -> (name: String)
    ensures
        name@ == file_name(mode, frame as nat),
{
    let mut name = String::from_str(mode.file_prefix());
    name.append("_");
    name.append(padded_text(frame, INDEX_WIDTH).as_str());
    name.append(".png");
    name
}

} // verus!
