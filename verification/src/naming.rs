//! The default chunk-file naming scheme: the chunk index rendered as a
//! zero-padded lowercase hexadecimal string of at least eight digits,
//! followed by the fixed extension `.txt`.

use vstd::prelude::*;
use vstd::string::StringExecFns;

verus! {

/// The character for one hexadecimal digit value.
pub open spec fn hex_digit_char(d: nat) -> char {
    if d == 0 {
        '0'
    } else if d == 1 {
        '1'
    } else if d == 2 {
        '2'
    } else if d == 3 {
        '3'
    } else if d == 4 {
        '4'
    } else if d == 5 {
        '5'
    } else if d == 6 {
        '6'
    } else if d == 7 {
        '7'
    } else if d == 8 {
        '8'
    } else if d == 9 {
        '9'
    } else if d == 10 {
        'a'
    } else if d == 11 {
        'b'
    } else if d == 12 {
        'c'
    } else if d == 13 {
        'd'
    } else if d == 14 {
        'e'
    } else {
        'f'
    }
}

/// The hexadecimal digits of `n`, most significant first, with no
/// leading zeros (a single `'0'` for `n == 0`).
pub open spec fn hex_digits(n: nat) -> Seq<char>
    decreases n,
{
    if n < 16 {
        seq![hex_digit_char(n)]
    } else {
        hex_digits(n / 16).push(hex_digit_char(n % 16))
    }
}

/// `s` left-padded with `'0'` to at least eight characters.
pub open spec fn zero_pad8(s: Seq<char>) -> Seq<char> {
    if s.len() >= 8 {
        s
    } else {
        Seq::new((8 - s.len()) as nat, |i: int| '0') + s
    }
}

/// The file name for chunk index `index`: eight-digit zero-padded
/// lowercase hexadecimal (longer when the index needs more digits),
/// followed by `.txt`.
pub open spec fn basename_spec(index: nat) -> Seq<char> {
    zero_pad8(hex_digits(index)) + ".txt"@
}

/// The one-character string for a hexadecimal digit value.
fn hex_char_str(d: usize) -> (r: &'static str)
    requires
        d < 16,
    ensures
        r@ == seq![hex_digit_char(d as nat)],
{
    if d == 0 {
        proof {
            reveal_strlit("0");
            assert("0"@ =~= seq![hex_digit_char(d as nat)]);
        }
        "0"
    } else if d == 1 {
        proof {
            reveal_strlit("1");
            assert("1"@ =~= seq![hex_digit_char(d as nat)]);
        }
        "1"
    } else if d == 2 {
        proof {
            reveal_strlit("2");
            assert("2"@ =~= seq![hex_digit_char(d as nat)]);
        }
        "2"
    } else if d == 3 {
        proof {
            reveal_strlit("3");
            assert("3"@ =~= seq![hex_digit_char(d as nat)]);
        }
        "3"
    } else if d == 4 {
        proof {
            reveal_strlit("4");
            assert("4"@ =~= seq![hex_digit_char(d as nat)]);
        }
        "4"
    } else if d == 5 {
        proof {
            reveal_strlit("5");
            assert("5"@ =~= seq![hex_digit_char(d as nat)]);
        }
        "5"
    } else if d == 6 {
        proof {
            reveal_strlit("6");
            assert("6"@ =~= seq![hex_digit_char(d as nat)]);
        }
        "6"
    } else if d == 7 {
        proof {
            reveal_strlit("7");
            assert("7"@ =~= seq![hex_digit_char(d as nat)]);
        }
        "7"
    } else if d == 8 {
        proof {
            reveal_strlit("8");
            assert("8"@ =~= seq![hex_digit_char(d as nat)]);
        }
        "8"
    } else if d == 9 {
        proof {
            reveal_strlit("9");
            assert("9"@ =~= seq![hex_digit_char(d as nat)]);
        }
        "9"
    } else if d == 10 {
        proof {
            reveal_strlit("a");
            assert("a"@ =~= seq![hex_digit_char(d as nat)]);
        }
        "a"
    } else if d == 11 {
        proof {
            reveal_strlit("b");
            assert("b"@ =~= seq![hex_digit_char(d as nat)]);
        }
        "b"
    } else if d == 12 {
        proof {
            reveal_strlit("c");
            assert("c"@ =~= seq![hex_digit_char(d as nat)]);
        }
        "c"
    } else if d == 13 {
        proof {
            reveal_strlit("d");
            assert("d"@ =~= seq![hex_digit_char(d as nat)]);
        }
        "d"
    } else if d == 14 {
        proof {
            reveal_strlit("e");
            assert("e"@ =~= seq![hex_digit_char(d as nat)]);
        }
        "e"
    } else {
        proof {
            reveal_strlit("f");
            assert("f"@ =~= seq![hex_digit_char(d as nat)]);
        }
        "f"
    }
}

/// Appends the hexadecimal digits of `n`, most significant first, to `out`.
fn push_hex(n: usize, out: &mut String)
    ensures
        final(out)@ == old(out)@ + hex_digits(n as nat),
    decreases n,
{
    if n < 16 {
        let d = hex_char_str(n);
        out.append(d);
    } else {
        push_hex(n / 16, out);
        let d = hex_char_str(n % 16);
        out.append(d);
        proof {
            assert(out@ =~= old(out)@ + hex_digits(n as nat));
        }
    }
}

/// The number of hexadecimal digits of `n`.
fn hex_len(n: usize) -> (r: usize)
    ensures
        r as nat == hex_digits(n as nat).len(),
        1 <= r,
    decreases n,
{
    if n < 16 {
        1
    } else {
        let rest = hex_len(n / 16);
        proof {
            lemma_hex_digits_len_le((n / 16) as nat);
            assert(rest + 1 <= n);
        }
        rest + 1
    }
}

/// A crude but sufficient bound on the digit count.
proof fn lemma_hex_digits_len_le(n: nat)
    ensures
        hex_digits(n).len() <= n + 1,
    decreases n,
{
    if n >= 16 {
        lemma_hex_digits_len_le(n / 16);
    }
}

/// Writes the chunk-file name for `index` into `basename`, replacing its
/// previous contents: the index in lowercase hexadecimal, zero-padded to
/// eight digits, followed by `.txt`.
pub fn index2basename(index: usize, basename: &mut String)
    ensures
        final(basename)@ == basename_spec(index as nat),
{
    let len = hex_len(index);
    let pad: usize = if len >= 8 {
        0
    } else {
        8 - len
    };
    let mut name = String::new();
    let mut j: usize = 0;
    while j < pad
        invariant
            j <= pad,
            name@ == Seq::new(j as nat, |i: int| '0'),
        decreases pad - j,
    {
        name.append("0");
        j = j + 1;
        proof {
            reveal_strlit("0");
            assert(name@ =~= Seq::new(j as nat, |i: int| '0'));
        }
    }
    push_hex(index, &mut name);
    name.append(".txt");
    proof {
        assert(name@ =~= basename_spec(index as nat)) by {
            assert(Seq::new(0 as nat, |i: int| '0') + hex_digits(index as nat) =~= hex_digits(
                index as nat,
            ));
        }
    }
    *basename = name;
}

/// A naming policy: a deterministic, injective map from a chunk index to
/// the file name the chunk is committed under.
pub trait IndexNamer: Sized {
    /// The name this policy gives to chunk `index`.
    spec fn name_spec(&self, index: nat) -> Seq<char>;

    /// Writes the name for `index` into `basename`, replacing its
    /// previous contents.
    fn index_to_basename(&self, index: usize, basename: &mut String)
        ensures
            final(basename)@ == self.name_spec(index as nat),
    ;
}

/// The default naming policy, backed by [`index2basename`].
pub struct HexNamer;

impl IndexNamer for HexNamer {
    open spec fn name_spec(&self, index: nat) -> Seq<char> {
        basename_spec(index)
    }

    fn index_to_basename(&self, index: usize, basename: &mut String) {
        index2basename(index, basename);
    }
}

} // verus!
