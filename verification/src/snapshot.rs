//! The snapshot format: where a frame is written, and what is written there.
//!
//! A frame is a table of comma-separated values with one heading line and one
//! line for each sample, the electric ones first. How a sample is spelt is
//! the caller's business; the library lays the spellings out.

use vstd::prelude::*;
use vstd::string::*;
use crate::wave::Wave;

verus! {

/// The least number of digits in the number of a frame.
pub const FRAME_DIGITS: usize = 5;

/// The decimal digit of a number below ten.
pub open spec fn digit(d: nat) -> char
    recommends
        d < 10,
{
    if d == 0 {
        '0'
    } else if d == 1 {
        '1'
    } else if d == 2 {
        '2'
    } else if d == 3 {
        '3'
    } else if d == 4 {
        '4'
    } else if d == 5 {
        '5'
    } else if d == 6 {
        '6'
    } else if d == 7 {
        '7'
    } else if d == 8 {
        '8'
    } else {
        '9'
    }
}

/// A number in decimal, without leading zeros.
pub open spec fn decimal(n: nat) -> Seq<char>
    decreases n,
{
    if n < 10 {
        seq![digit(n)]
    } else {
        decimal(n / 10).push(digit(n % 10))
    }
}

/// A number in decimal, with zeros in front of it where it has fewer than
/// `width` digits.
pub open spec fn zero_padded(n: nat, width: nat) -> Seq<char> {
    let digits = decimal(n);
    if digits.len() >= width {
        digits
    } else {
        Seq::new((width - digits.len()) as nat, |i: int| '0') + digits
    }
}

/// The path of the frame that is written after step `step`.
pub open spec fn frame_name(step: nat) -> Seq<char> {
    "data/frame_"@ + zero_padded(step, FRAME_DIGITS as nat) + ".csv"@
}

/// One line of a frame: the field's letter, a comma, the sample, a line feed.
pub open spec fn row(tag: char, value: Seq<char>) -> Seq<char> {
    seq![tag, ','] + value + seq!['\n']
}

/// The lines of one field, in the order of its samples.
pub open spec fn rows(tag: char, values: Seq<Seq<char>>) -> Seq<char>
    decreases values.len(),
{
    if values.len() == 0 {
        Seq::empty()
    } else {
        rows(tag, values.drop_last()) + row(tag, values.last())
    }
}

/// The heading line of a frame.
pub open spec fn heading() -> Seq<char> {
    "type,value\n"@
}

/// A whole frame: the heading, a line for each electric sample, a line for
/// each magnetic sample.
pub open spec fn frame_text(electric: Seq<Seq<char>>, magnetic: Seq<Seq<char>>) -> Seq<char> {
    heading() + rows('E', electric) + rows('H', magnetic)
}

/// The characters of each string of a sequence.
pub open spec fn spellings(strings: Seq<String>) -> Seq<Seq<char>> {
    strings.map_values(|s: String| s@)
}

/// `texts` is a way to spell `samples` one by one with `render`.
pub open spec fn spells<T, R: Fn(T) -> String>(
    samples: Seq<T>,
    texts: Seq<String>,
    render: R,
) -> bool {
    &&& texts.len() == samples.len()
    &&& forall|i: int|
        0 <= i < samples.len() ==> render.ensures((samples[i],), #[trigger] texts[i])
}

fn digit_text(d: usize) -> (text: &'static str)
    requires
        d < 10,
    ensures
        text@ == seq![digit(d as nat)],
{
    let text = if d == 0 {
        proof {
            reveal_strlit("0");
        }
        "0"
    } else if d == 1 {
        proof {
            reveal_strlit("1");
        }
        "1"
    } else if d == 2 {
        proof {
            reveal_strlit("2");
        }
        "2"
    } else if d == 3 {
        proof {
            reveal_strlit("3");
        }
        "3"
    } else if d == 4 {
        proof {
            reveal_strlit("4");
        }
        "4"
    } else if d == 5 {
        proof {
            reveal_strlit("5");
        }
        "5"
    } else if d == 6 {
        proof {
            reveal_strlit("6");
        }
        "6"
    } else if d == 7 {
        proof {
            reveal_strlit("7");
        }
        "7"
    } else if d == 8 {
        proof {
            reveal_strlit("8");
        }
        "8"
    } else {
        proof {
            reveal_strlit("9");
        }
        "9"
    };
    assert(text@ =~= seq![digit(d as nat)]);
    text
}

fn decimal_len(n: usize) -> (len: usize)
    ensures
        len == decimal(n as nat).len(),
        len == 1 || len <= n,
    decreases n,
{
    if n < 10 {
        1
    } else {
        let len: usize = decimal_len(n / 10);
        len + 1
    }
}

fn append_decimal(out: &mut String, n: usize)
    ensures
        final(out)@ == old(out)@ + decimal(n as nat),
    decreases n,
{
    if n < 10 {
        out.append(digit_text(n));
    } else {
        append_decimal(out, n / 10);
        out.append(digit_text(n % 10));
        assert(out@ =~= old(out)@ + decimal(n as nat));
    }
}

/// The path of the file that holds the frame written after step `step`: the
/// number of the step in decimal, filled up with zeros to five digits,
/// between `data/frame_` and `.csv`.
pub fn frame_path(step: usize) -> (path: String)
    ensures
        path@ == frame_name(step as nat),
{
    let mut path = String::from_str("data/frame_");
    let len: usize = decimal_len(step);
    let ghost start = path@;
    let mut k: usize = len;
    while k < FRAME_DIGITS
        invariant
            len <= k,
            len < FRAME_DIGITS ==> k <= FRAME_DIGITS,
            len >= FRAME_DIGITS ==> k == len,
            path@ == start + Seq::new((k - len) as nat, |i: int| '0'),
        decreases FRAME_DIGITS - k,
    {
        proof {
            reveal_strlit("0");
        }
        path.append("0");
        k += 1;
        assert(path@ =~= start + Seq::new((k - len) as nat, |i: int| '0'));
    }
    let ghost padding = Seq::new((k - len) as nat, |i: int| '0');
    assert(padding + decimal(step as nat) =~= zero_padded(step as nat, FRAME_DIGITS as nat));
    append_decimal(&mut path, step);
    path.append(".csv");
    assert(path@ =~= start + (padding + decimal(step as nat)) + ".csv"@);
    path
}

fn append_rows(out: &mut String, tag: &str, values: &Vec<String>)
    requires
        tag@.len() == 2,
        tag@[1] == ',',
    ensures
        final(out)@ == old(out)@ + rows(tag@[0], spellings(values@)),
{
    let ghost all = spellings(values@);
    let mut i: usize = 0;
    while i < values.len()
        invariant
            i <= values.len(),
            all == spellings(values@),
            tag@.len() == 2,
            tag@[1] == ',',
            out@ == old(out)@ + rows(tag@[0], all.take(i as int)),
        decreases values.len() - i,
    {
        proof {
            reveal_strlit("\n");
            let upto = all.take(i + 1);
            assert(upto.drop_last() =~= all.take(i as int));
            assert(upto.last() == values@[i as int]@);
        }
        out.append(tag);
        out.append(values[i].as_str());
        out.append("\n");
        i += 1;
        assert(out@ =~= old(out)@ + rows(tag@[0], all.take(i as int)));
    }
    assert(all.take(i as int) =~= all);
}

/// The text of a frame, from the spellings of its samples.
pub fn frame_csv(electric: &Vec<String>, magnetic: &Vec<String>) -> (text: String)
    ensures
        text@ == frame_text(spellings(electric@), spellings(magnetic@)),
{
    let mut text = String::from_str("type,value\n");
    proof {
        reveal_strlit("E,");
        reveal_strlit("H,");
    }
    append_rows(&mut text, "E,", electric);
    append_rows(&mut text, "H,", magnetic);
    text
}

fn spell<T: Copy, R: Fn(T) -> String>(samples: &Vec<T>, render: &R) -> (texts: Vec<String>)
    requires
        forall|x: T| render.requires((x,)),
    ensures
        spells(samples@, texts@, *render),
{
    let mut texts: Vec<String> = Vec::new();
    let mut i: usize = 0;
    while i < samples.len()
        invariant
            i <= samples.len(),
            forall|x: T| render.requires((x,)),
            spells(samples@.take(i as int), texts@, *render),
        decreases samples.len() - i,
    {
        texts.push(render(samples[i]));
        i += 1;
    }
    assert(samples@.take(i as int) =~= samples@);
    texts
}

/// The text of the frame that shows `wave`, each sample spelt by `render`.
pub fn snapshot<T: Copy, R: Fn(T) -> String>(wave: &Wave<T>, render: &R) -> (text: String)
    requires
        forall|x: T| render.requires((x,)),
    ensures
        exists|electric: Seq<String>, magnetic: Seq<String>|
            {
                &&& spells(wave@.electric, electric, *render)
                &&& spells(wave@.magnetic, magnetic, *render)
                &&& text@ == frame_text(spellings(electric), spellings(magnetic))
            },
{
    let electric = spell(wave.electric(), render);
    let magnetic = spell(wave.magnetic(), render);
    frame_csv(&electric, &magnetic)
}

} // verus!
