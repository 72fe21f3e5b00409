//! How fetched values are shown: JSON text in which every list of bytes
//! stands on one line, in hexadecimal.

use crate::hexcode::hex_digit;
use crate::text::{
    append_chars, append_range, ascii_lowered, chars_are, chars_range, contains, digit_of,
    digit_value, find_char, first_index, from_chars, has_word, lowered, parse_decimal,
    read_decimal, to_chars,
};
use vstd::prelude::*;

verus! {

/// The characters that may stand between the numbers of a list.
pub open spec fn is_separator(c: char) -> bool {
    c == '\r' || c == '\n' || c == ',' || c == ' '
}

/// A byte in hexadecimal: two lower case digits.
pub open spec fn hex_pair(n: nat) -> Seq<char>
    recommends
        n < 256,
{
    seq![hex_digit(n as int / 16), hex_digit(n as int % 16)]
}

/// Reading the inside of a list, character by character: the hexadecimal
/// digits of the numbers that were closed by a separator so far, and the
/// decimal digits of the number that is still open. There is no such state
/// once a character is neither a digit nor a separator, or a number is
/// closed that is no byte.
pub open spec fn scan(s: Seq<char>) -> Option<(Seq<char>, Seq<char>)>
    decreases s.len(),
{
    if s.len() == 0 {
        Some((Seq::empty(), Seq::empty()))
    } else {
        match scan(s.drop_last()) {
            None => None,
            Some((out, num)) => {
                let c = s.last();
                if is_separator(c) {
                    if num.len() == 0 {
                        Some((out, num))
                    } else {
                        match parse_decimal(num, 255) {
                            Some(n) => Some((out + hex_pair(n), Seq::empty())),
                            None => None,
                        }
                    }
                } else if digit_value(c) is Some {
                    Some((out, num.push(c)))
                } else {
                    None
                }
            },
        }
    }
}

/// The text that stands for the list of bytes whose inside is `s`: the
/// numbers of `s` that a separator follows, each as two hexadecimal digits,
/// between `[ ` and ` ]]`. A number that no separator follows is left out.
/// There is no such text unless `s` is made of decimal numbers up to 255
/// and separators.
pub open spec fn byte_buffer_text(s: Seq<char>) -> Option<Seq<char>> {
    match scan(s) {
        Some((out, _)) => Some("[ "@ + out + " ]]"@),
        None => None,
    }
}

/// The hexadecimal digit for a number below sixteen.
pub fn hex_char(n: u8) -> (c: char)
    requires
        n < 16,
    ensures
        c == hex_digit(n as int),
{
    if n == 0 {
        '0'
    } else if n == 1 {
        '1'
    } else if n == 2 {
        '2'
    } else if n == 3 {
        '3'
    } else if n == 4 {
        '4'
    } else if n == 5 {
        '5'
    } else if n == 6 {
        '6'
    } else if n == 7 {
        '7'
    } else if n == 8 {
        '8'
    } else if n == 9 {
        '9'
    } else if n == 10 {
        'a'
    } else if n == 11 {
        'b'
    } else if n == 12 {
        'c'
    } else if n == 13 {
        'd'
    } else if n == 14 {
        'e'
    } else {
        'f'
    }
}

/// `byte_buffer_try_parse` on the characters of a text.
pub fn byte_buffer_chars(s: &Vec<char>) -> (r: Option<Vec<char>>)
    ensures
        match byte_buffer_text(s@) {
            Some(t) => r matches Some(v) && v@ == t,
            None => r is None,
        },
{
    let mut out: Vec<char> = Vec::new();
    let mut num: Vec<char> = Vec::new();
    let mut i: usize = 0;
    while i < s.len()
        invariant
            i <= s.len(),
            scan(s@.subrange(0, i as int)) == Some((out@, num@)),
        decreases s.len() - i,
    {
        let c = s[i];
        proof {
            let next = s@.subrange(0, i + 1);
            assert(next.drop_last() =~= s@.subrange(0, i as int));
            assert(next.last() == c);
            assert(s@.subrange(0, s.len() as int) =~= s@);
        }
        if c == '\r' || c == '\n' || c == ',' || c == ' ' {
            if num.len() > 0 {
                match read_decimal(&num, 255) {
                    Some(n) => {
                        let b: u8 = n as u8;
                        let ghost before = out@;
                        out.push(hex_char(b / 16));
                        out.push(hex_char(b % 16));
                        assert(out@ =~= before + hex_pair(n as nat));
                    },
                    None => {
                        proof {
                            lemma_scan_fails(s@, i + 1);
                        }
                        return None;
                    },
                }
                num = Vec::new();
            }
        } else {
            match digit_of(c) {
                Some(_) => {
                    num.push(c);
                },
                None => {
                    proof {
                        lemma_scan_fails(s@, i + 1);
                    }
                    return None;
                },
            }
        }
        i += 1;
    }
    proof {
        assert(s@.subrange(0, s.len() as int) =~= s@);
    }
    let mut text = to_chars("[ ");
    append_chars(&mut text, &out);
    let tail = to_chars(" ]]");
    append_chars(&mut text, &tail);
    Some(text)
}

/// Once the reading has failed it stays failed, whatever follows.
pub proof fn lemma_scan_fails(s: Seq<char>, k: int)
    requires
        0 <= k <= s.len(),
        scan(s.subrange(0, k)) is None,
    ensures
        scan(s) is None,
    decreases s.len() - k,
{
    if k < s.len() {
        let longer = s.subrange(0, k + 1);
        assert(longer.drop_last() =~= s.subrange(0, k));
        lemma_scan_fails(s, k + 1);
    } else {
        assert(s.subrange(0, k) =~= s);
    }
}

/// The one-line text for the list of bytes whose inside is `s`, if `s` is
/// the inside of one.
pub fn byte_buffer_try_parse(s: &str) -> (r: Option<String>)
    ensures
        match byte_buffer_text(s@) {
            Some(t) => r matches Some(v) && v@ == t,
            None => r is None,
        },
{
    let chars = to_chars(s);
    match byte_buffer_chars(&chars) {
        Some(v) => Some(from_chars(&v)),
        None => None,
    }
}

/// JSON text made friendlier to read: every innermost list that holds
/// only bytes is put on one line in hexadecimal, and everything else is
/// kept as it is.
///
/// The text is taken in from the left. Up to the first `]`, or up to the
/// character after the first `[` where another `[` follows before the
/// first `]`, it is copied; only where the first `[` and the first `]`
/// enclose the inside of a list of bytes, the text for that list (see
/// `byte_buffer_text`) stands in place of the inside and the `]`. A text
/// without `[` or without `]` is kept whole.
pub open spec fn pretty(w: Seq<char>) -> Seq<char>
    decreases w.len(),
{
    match (first_index(w, '[', 0), first_index(w, ']', 0)) {
        (Some(open), Some(close)) => {
            let start = open + 1;
            let len = w.len() as int;
            if 0 <= open < len && 0 <= close < len {
                if close > start {
                    let inside = w.subrange(start, close);
                    if first_index(inside, '[', 0) is Some {
                        w.subrange(0, start + 1) + pretty(w.subrange(start + 1, len))
                    } else {
                        match byte_buffer_text(inside) {
                            Some(t) => w.subrange(0, start) + t + pretty(
                                w.subrange(close + 1, len),
                            ),
                            None => w.subrange(0, close + 1) + pretty(w.subrange(close + 1, len)),
                        }
                    }
                } else {
                    w.subrange(0, close + 1) + pretty(w.subrange(close + 1, len))
                }
            } else {
                w
            }
        },
        _ => w,
    }
}

/// The friendlier form of the JSON text `s`.
pub fn format_json(s: &str) -> (r: String)
    ensures
        r@ == pretty(s@),
{
    let mut w = to_chars(s);
    let mut out: Vec<char> = Vec::new();
    loop
        invariant_except_break
            out@ + pretty(w@) == pretty(s@),
        ensures
            out@ == pretty(s@),
        decreases w@.len(),
    {
        let open = match find_char(&w, '[') {
            Some(i) => i,
            None => {
                append_chars(&mut out, &w);
                break ;
            },
        };
        let close = match find_char(&w, ']') {
            Some(i) => i,
            None => {
                append_chars(&mut out, &w);
                break ;
            },
        };
        let start: usize = open + 1;
        let ghost before = out@;
        let ghost whole = w@;
        let next: usize;
        if close > start {
            let inside = chars_range(&w, start, close);
            match find_char(&inside, '[') {
                Some(_) => {
                    append_range(&mut out, &w, 0, start + 1);
                    next = start + 1;
                },
                None => {
                    match byte_buffer_chars(&inside) {
                        Some(t) => {
                            append_range(&mut out, &w, 0, start);
                            append_chars(&mut out, &t);
                        },
                        None => {
                            append_range(&mut out, &w, 0, close + 1);
                        },
                    }
                    next = close + 1;
                },
            }
        } else {
            append_range(&mut out, &w, 0, close + 1);
            next = close + 1;
        }
        w = chars_range(&w, next, w.len());
        proof {
            assert(out@ + pretty(w@) =~= before + pretty(whole));
        }
    }
    from_chars(&out)
}

/// The answer to a question that wants `Y` or `N`, in either case.
pub open spec fn yes_no(s: Seq<char>) -> Option<bool> {
    if ascii_lowered(s) == "y"@ {
        Some(true)
    } else if ascii_lowered(s) == "n"@ {
        Some(false)
    } else {
        None
    }
}

/// What `input` answers to a question that wants `Y` or `N`, if it answers
/// it.
pub fn read_yes_no(input: &str) -> (r: Option<bool>)
    ensures
        r == yes_no(input@),
{
    let low = lowered(&to_chars(input));
    if chars_are(&low, "y") {
        Some(true)
    } else if chars_are(&low, "n") {
        Some(false)
    } else {
        None
    }
}

/// The kinds of key file.
#[derive(Clone, Copy, Debug, PartialEq, Eq, Structural)]
pub enum KeyFileKind {
    /// The key is held by a TPM 2.0 device.
    Tpm2,
    /// An ECDSA key pair in PKCS#8.
    Ecdsa,
    /// The bytes of an Ed25519 key pair.
    Ed25519,
}

/// The kind of the key file named `filename`: a name that holds `/tpm`
/// names a device, else one that holds `ecdsa` names an ECDSA key pair,
/// and any other an Ed25519 key pair.
pub fn key_file_kind(filename: &str) -> (k: KeyFileKind)
    ensures
        k == if contains(filename@, "/tpm"@) {
            KeyFileKind::Tpm2
        } else if contains(filename@, "ecdsa"@) {
            KeyFileKind::Ecdsa
        } else {
            KeyFileKind::Ed25519
        },
{
    let chars = to_chars(filename);
    if has_word(&chars, "/tpm") {
        KeyFileKind::Tpm2
    } else if has_word(&chars, "ecdsa") {
        KeyFileKind::Ecdsa
    } else {
        KeyFileKind::Ed25519
    }
}

} // verus!
