//! Small verified helpers on text: views of string lists, decimal numbers,
//! joining lines.

use vstd::prelude::*;

verus! {

/// A list of strings as sequences of characters.
pub open spec fn strings_view(lines: Vec<String>) -> Seq<Seq<char>> {
    Seq::new(lines@.len(), |i: int| lines@[i]@)
}

/// The character of a decimal digit.
pub open spec fn digit_char(d: nat) -> char {
    if d == 0 {
        '0'
    } else if d == 1 {
        '1'
    } else if d == 2 {
        '2'
    } else if d == 3 {
        '3'
    } else if d == 4 {
        '4'
    } else if d == 5 {
        '5'
    } else if d == 6 {
        '6'
    } else if d == 7 {
        '7'
    } else if d == 8 {
        '8'
    } else {
        '9'
    }
}

/// A number in decimal, without sign or leading zeros.
pub open spec fn decimal(n: nat) -> Seq<char>
    decreases n,
{
    if n < 10 {
        seq![digit_char(n)]
    } else {
        decimal(n / 10).push(digit_char(n % 10))
    }
}

fn digit_str(d: u8) -> (s: &'static str)
    requires
        d < 10,
    ensures
        s@ == seq![digit_char(d as nat)],
{
    proof {
        reveal_strlit("0");
        reveal_strlit("1");
        reveal_strlit("2");
        reveal_strlit("3");
        reveal_strlit("4");
        reveal_strlit("5");
        reveal_strlit("6");
        reveal_strlit("7");
        reveal_strlit("8");
        reveal_strlit("9");
    }
    let s = if d == 0 {
        "0"
    } else if d == 1 {
        "1"
    } else if d == 2 {
        "2"
    } else if d == 3 {
        "3"
    } else if d == 4 {
        "4"
    } else if d == 5 {
        "5"
    } else if d == 6 {
        "6"
    } else if d == 7 {
        "7"
    } else if d == 8 {
        "8"
    } else {
        "9"
    };
    assert(s@ =~= seq![digit_char(d as nat)]);
    s
}

/// Appends `n` in decimal to `out`.
pub fn push_decimal(out: &mut String, n: u128)
    ensures
        final(out)@ == old(out)@ + decimal(n as nat),
    decreases n,
{
    if n >= 10 {
        push_decimal(out, n / 10);
    }
    let d: u8 = (n % 10) as u8;
    out.append(digit_str(d));
    assert(final(out)@ =~= old(out)@ + decimal(n as nat)) by {
        if n >= 10 {
            assert(decimal(n as nat) == decimal((n / 10) as nat).push(digit_char((n % 10) as nat)));
        }
    }
}

/// The first `n` of `lines`, each but the first with a line feed before it.
pub open spec fn joined(lines: Seq<Seq<char>>, n: int) -> Seq<char>
    decreases n,
{
    if n <= 0 {
        Seq::empty()
    } else if n == 1 {
        lines[0]
    } else {
        joined(lines, n - 1) + seq!['\n'] + lines[n - 1]
    }
}

/// The lines with a line feed between each two.
pub fn join_lines(lines: &Vec<String>) -> (text: String)
    ensures
        text@ == joined(strings_view(*lines), lines@.len() as int),
{
    let mut text = String::new();
    let mut i: usize = 0;
    while i < lines.len()
        invariant
            i <= lines@.len(),
            text@ == joined(strings_view(*lines), i as int),
        decreases lines@.len() - i,
    {
        if i > 0 {
            proof {
                reveal_strlit("\n");
            }
            text.append("\n");
            assert("\n"@ =~= seq!['\n']);
        }
        text.append(lines[i].as_str());
        proof {
            assert(strings_view(*lines)[i as int] == lines@[i as int]@);
            if i == 0 {
                assert(text@ =~= joined(strings_view(*lines), 1));
            } else {
                assert(text@ =~= joined(strings_view(*lines), i + 1));
            }
        }
        i += 1;
    }
    text
}

/// The pieces of a text between its separators, read from the left: a
/// separator starts a new piece, any other character goes to the end of the
/// last piece. A text without separator is one piece, the empty text too.
pub open spec fn pieces(text: Seq<char>, separator: char) -> Seq<Seq<char>>
    decreases text.len(),
{
    if text.len() == 0 {
        seq![Seq::empty()]
    } else {
        let before = pieces(text.drop_last(), separator);
        if text.last() == separator {
            before.push(Seq::empty())
        } else {
            before.update(before.len() - 1, before.last().push(text.last()))
        }
    }
}

/// Whether two texts are the same.
pub fn same_text(a: &str, b: &str) -> (same: bool)
    ensures
        same == (a@ == b@),
{
    String::from_str(a) == String::from_str(b)
}

/// The pieces of a text between its separators.
pub fn split_on(text: &str, separator: char) -> (parts: Vec<String>)
    ensures
        strings_view(parts) == pieces(text@, separator),
{
    let length = text.unicode_len();
    let mut parts: Vec<String> = Vec::new();
    let mut start: usize = 0;
    let mut i: usize = 0;
    proof {
        assert(text@.take(0) =~= Seq::<char>::empty());
        assert(strings_view(parts).push(text@.subrange(0, 0)) =~= pieces(text@.take(0), separator));
    }
    while i < length
        invariant
            start <= i <= length,
            length == text@.len(),
            strings_view(parts).push(text@.subrange(start as int, i as int)) == pieces(
                text@.take(i as int),
                separator,
            ),
        decreases length - i,
    {
        let ghost done = strings_view(parts);
        let ghost current = text@.subrange(start as int, i as int);
        let c = text.get_char(i);
        proof {
            let next = text@.take(i + 1);
            assert(next.drop_last() =~= text@.take(i as int));
            assert(next.last() == c);
        }
        if c == separator {
            parts.push(String::from_str(text.substring_char(start, i)));
            start = i + 1;
            proof {
                assert(strings_view(parts) =~= done.push(current));
                assert(text@.subrange(start as int, i + 1) =~= Seq::<char>::empty());
            }
        } else {
            proof {
                assert(text@.subrange(start as int, i + 1) =~= current.push(c));
                assert(done.push(current).update(done.len() as int, current.push(c)) =~= done.push(
                    current.push(c),
                ));
            }
        }
        i += 1;
    }
    parts.push(String::from_str(text.substring_char(start, length)));
    proof {
        assert(text@.take(length as int) =~= text@);
        assert(strings_view(parts) =~= pieces(text@, separator));
    }
    parts
}

/// What `String::from_utf8_lossy` makes of bytes: the text that they
/// encode, with U+FFFD in place of what is not UTF-8.
pub uninterp spec fn utf8_lossy(bytes: Seq<u8>) -> Seq<char>;

/// `String::from_utf8_lossy`, as an owned string.
#[verifier::external_body]
pub(crate) fn lossy_text(bytes: &[u8]) -> (text: String)
    ensures
        text@ == utf8_lossy(bytes@),
{
    String::from_utf8_lossy(bytes).into_owned()
}

} // verus!
