//! The command-line interpreter: parses the trimmed command buffer into the
//! small command language — quit, jump to a 1-indexed line, or nothing.
//! Unrecognised text is accepted as a no-op, never an error.

use vstd::prelude::*;

verus! {

/// What an entered command line asks for.
#[derive(Debug, Clone, Copy, PartialEq, Eq, Structural)]
pub enum Command {
    /// `q` or `quit`: set the exit flag.
    Quit,
    /// A literal non-negative integer `N`: jump to the 0-indexed `target`,
    /// already converted from the 1-indexed input (`N = 1` and `N = 0` both
    /// target index 0).
    Jump { target: usize },
    /// Anything else: do nothing.
    Nothing,
}

/// Blank characters stripped from both ends of the buffer.
pub open spec fn is_blank(c: char) -> bool {
    c == ' ' || c == '\t' || c == '\n' || c == '\r'
}

/// The buffer with leading blanks removed.
pub open spec fn trim_front(s: Seq<char>) -> Seq<char>
    decreases s.len(),
{
    if s.len() > 0 && is_blank(s.first()) {
        trim_front(s.drop_first())
    } else {
        s
    }
}

/// The buffer with trailing blanks removed.
pub open spec fn trim_back(s: Seq<char>) -> Seq<char>
    decreases s.len(),
{
    if s.len() > 0 && is_blank(s.last()) {
        trim_back(s.drop_last())
    } else {
        s
    }
}

/// The buffer with blanks removed from both ends.
pub open spec fn trimmed(s: Seq<char>) -> Seq<char> {
    trim_back(trim_front(s))
}

pub open spec fn is_digit(c: char) -> bool {
    '0' as u32 <= c as u32 <= '9' as u32
}

pub open spec fn digit_val(c: char) -> int {
    c as u32 - '0' as u32
}

pub open spec fn all_digits(s: Seq<char>) -> bool {
    forall|i: int| 0 <= i < s.len() ==> is_digit(#[trigger] s[i])
}

/// The decimal value of a digit string.
pub open spec fn digits_val(s: Seq<char>) -> int
    decreases s.len(),
{
    if s.len() == 0 {
        0
    } else {
        digits_val(s.drop_last()) * 10 + digit_val(s.last())
    }
}

/// The text reads as a decimal number a `usize` can hold.
pub open spec fn is_number(s: Seq<char>) -> bool {
    s.len() > 0 && all_digits(s) && digits_val(s) <= usize::MAX
}

/// What a command line means once trimmed: `q`/`quit`, a 1-indexed line
/// number (`N` targets index `N - 1`, saturating at 0), or nothing.
pub open spec fn spec_parse_command(s: Seq<char>) -> Command {
    let t = trimmed(s);
    if t == seq!['q'] || t == seq!['q', 'u', 'i', 't'] {
        Command::Quit
    } else if is_number(t) {
        Command::Jump {
            target: (if digits_val(t) > 0 {
                digits_val(t) - 1
            } else {
                0
            }) as usize,
        }
    } else {
        Command::Nothing
    }
}

proof fn lemma_digits_val_nonneg(s: Seq<char>)
    requires
        all_digits(s),
    ensures
        digits_val(s) >= 0,
    decreases s.len(),
{
    if s.len() > 0 {
        assert(all_digits(s.drop_last())) by {
            assert(forall|i: int|
                0 <= i < s.len() - 1 ==> #[trigger] s.drop_last()[i] == s[i]);
        }
        lemma_digits_val_nonneg(s.drop_last());
    }
}

/// A digit string is worth at least any of its prefixes.
proof fn lemma_digits_val_prefix(s: Seq<char>, j: int)
    requires
        all_digits(s),
        0 <= j <= s.len(),
    ensures
        digits_val(s.take(j)) <= digits_val(s),
    decreases s.len() - j,
{
    if j == s.len() {
        assert(s.take(j) =~= s);
    } else {
        lemma_digits_val_prefix(s, j + 1);
        assert(s.take(j + 1).drop_last() =~= s.take(j));
        assert(s.take(j + 1).last() == s[j]);
        assert(all_digits(s.take(j))) by {
            assert(forall|i: int|
                0 <= i < j ==> #[trigger] s.take(j)[i] == s[i]);
        }
        lemma_digits_val_nonneg(s.take(j));
        assert(digits_val(s.take(j + 1)) == digits_val(s.take(j)) * 10 + digit_val(s[j]));
        assert(digits_val(s.take(j)) * 10 >= digits_val(s.take(j))) by (nonlinear_arith)
            requires digits_val(s.take(j)) >= 0;
        assert(digit_val(s[j]) >= 0);
    }
}

fn blank(c: char) -> (r: bool)
    ensures
        r == is_blank(c),
{
    c == ' ' || c == '\t' || c == '\n' || c == '\r'
}

/// Parse the command buffer: trim it, then read it as `q`/`quit`, as a
/// 1-indexed line number, or as nothing.
pub fn parse_command(buf: &Vec<char>) -> (r: Command)
    ensures
        r == spec_parse_command(buf@),
{
    let s = buf.as_slice();
    let n = s.len();

    // Strip leading blanks.
    let mut lo: usize = 0;
    proof {
        assert(s@.skip(0) =~= s@);
    }
    while lo < n && blank(s[lo])
        invariant
            n == s@.len(),
            lo <= n,
            trim_front(s@) == trim_front(s@.skip(lo as int)),
        decreases n - lo,
    {
        proof {
            assert(s@.skip(lo as int).first() == s@[lo as int]);
            assert(s@.skip(lo as int).drop_first() =~= s@.skip(lo + 1));
        }
        lo += 1;
    }
    proof {
        if lo < n {
            assert(!is_blank(s@.skip(lo as int).first()));
        } else {
            assert(s@.skip(lo as int) =~= Seq::<char>::empty());
        }
        assert(trim_front(s@) == s@.skip(lo as int));
    }

    // Strip trailing blanks.
    let mut hi: usize = n;
    proof {
        assert(s@.subrange(lo as int, hi as int) =~= s@.skip(lo as int));
    }
    while hi > lo && blank(s[hi - 1])
        invariant
            n == s@.len(),
            lo <= hi <= n,
            trim_back(s@.skip(lo as int)) == trim_back(s@.subrange(lo as int, hi as int)),
        decreases hi,
    {
        proof {
            assert(s@.subrange(lo as int, hi as int).last() == s@[hi - 1]);
            assert(s@.subrange(lo as int, hi as int).drop_last() =~= s@.subrange(
                lo as int,
                hi - 1,
            ));
        }
        hi -= 1;
    }
    let ghost t = trimmed(s@);
    proof {
        if hi > lo {
            assert(!is_blank(s@.subrange(lo as int, hi as int).last()));
        } else {
            assert(s@.subrange(lo as int, hi as int) =~= Seq::<char>::empty());
        }
        assert(t == s@.subrange(lo as int, hi as int));
    }

    let len = hi - lo;

    // `q` or `quit` asks to leave.
    if len == 1 && s[lo] == 'q' {
        proof {
            assert(t =~= seq!['q']);
        }
        return Command::Quit;
    }
    if len == 4 && s[lo] == 'q' && s[lo + 1] == 'u' && s[lo + 2] == 'i' && s[lo + 3] == 't' {
        proof {
            assert(t =~= seq!['q', 'u', 'i', 't']);
        }
        return Command::Quit;
    }
    proof {
        if t == seq!['q'] {
            assert(t.len() == 1 && t[0] == 'q');
            assert(s@[lo as int] == t[0]);
            assert(false);
        }
        if t == seq!['q', 'u', 'i', 't'] {
            assert(t.len() == 4 && t[0] == 'q' && t[1] == 'u' && t[2] == 'i' && t[3] == 't');
            assert(s@[lo as int] == t[0]);
            assert(s@[lo + 1] == t[1]);
            assert(s@[lo + 2] == t[2]);
            assert(s@[lo + 3] == t[3]);
            assert(false);
        }
    }

    // Otherwise the text must read as a decimal number.
    if len == 0 {
        return Command::Nothing;
    }
    let mut acc: usize = 0;
    let mut j: usize = 0;
    proof {
        assert(t.take(0) =~= Seq::<char>::empty());
    }
    while j < len
        invariant
            s@ == buf@,
            n == s@.len(),
            lo <= hi <= n,
            len == hi - lo,
            len > 0,
            t == s@.subrange(lo as int, hi as int),
            t == trimmed(s@),
            t != seq!['q'],
            t != seq!['q', 'u', 'i', 't'],
            j <= len,
            all_digits(t.take(j as int)),
            acc as int == digits_val(t.take(j as int)),
        decreases len - j,
    {
        let c = s[lo + j];
        proof {
            assert(t[j as int] == s@[lo + j]);
        }
        let cu = c as u32;
        if !('0' as u32 <= cu && cu <= '9' as u32) {
            proof {
                assert(!is_digit(t[j as int]));
                assert(!all_digits(t));
            }
            return Command::Nothing;
        }
        let d = (cu - '0' as u32) as usize;
        let next = match acc.checked_mul(10) {
            Some(x) => x.checked_add(d),
            None => None,
        };
        proof {
            assert(t.take(j + 1).drop_last() =~= t.take(j as int));
            assert(t.take(j + 1).last() == t[j as int]);
            assert(digits_val(t.take(j + 1)) == acc as int * 10 + d);
            assert(all_digits(t.take(j + 1))) by {
                assert(forall|i: int|
                    0 <= i < j + 1 ==> #[trigger] t.take(j + 1)[i] == t[i]);
            }
        }
        match next {
            Some(v) => {
                acc = v;
            }
            None => {
                // The number is already past what a `usize` can hold, and
                // growing it with more digits cannot shrink it.
                proof {
                    if all_digits(t) {
                        lemma_digits_val_prefix(t, j + 1);
                        assert(digits_val(t) > usize::MAX);
                    }
                    assert(!is_number(t));
                }
                return Command::Nothing;
            }
        }
        j += 1;
    }
    proof {
        assert(t.take(len as int) =~= t);
        assert(is_number(t));
    }
    if acc > 0 {
        Command::Jump { target: acc - 1 }
    } else {
        Command::Jump { target: 0 }
    }
}

} // verus!
