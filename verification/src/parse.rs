//! Parsing of counter file contents: whitespace trimming and decimal
//! reading, the compute half of each raw counter accessor. The OS hands the
//! values over as whitespace-trimmed decimal ASCII text; anything else is a
//! `ParseError`.

use vstd::prelude::*;
use vstd::string::*;

use crate::counters::NetError;

verus! {

/// The whitespace characters a counter file may carry around its value.
pub open spec fn is_space(c: char) -> bool {
    c == ' ' || c == '\t' || c == '\n' || c == '\r' || c == '\u{0b}' || c == '\u{0c}'
}

/// The string without its leading whitespace.
pub open spec fn trim_front(s: Seq<char>) -> Seq<char>
    decreases s.len(),
{
    if s.len() > 0 && is_space(s[0]) {
        trim_front(s.drop_first())
    } else {
        s
    }
}

/// The string without its trailing whitespace.
pub open spec fn trim_back(s: Seq<char>) -> Seq<char>
    decreases s.len(),
{
    if s.len() > 0 && is_space(s.last()) {
        trim_back(s.drop_last())
    } else {
        s
    }
}

/// The string without leading and trailing whitespace.
pub open spec fn trim_spec(s: Seq<char>) -> Seq<char> {
    trim_back(trim_front(s))
}

/// True for a decimal digit character.
pub open spec fn is_digit(c: char) -> bool {
    48 <= c as int <= 57
}

/// The value of one digit character.
pub open spec fn digit_val(c: char) -> int {
    c as int - 48
}

/// True when every character of the string is a decimal digit.
pub open spec fn all_digits(s: Seq<char>) -> bool {
    forall|i: int| 0 <= i < s.len() ==> is_digit(#[trigger] s[i])
}

/// The number a string of decimal digits denotes.
pub open spec fn digits_val(s: Seq<char>) -> int
    decreases s.len(),
{
    if s.len() == 0 {
        0
    } else {
        digits_val(s.drop_last()) * 10 + digit_val(s.last())
    }
}

/// True when the file content is a well-shaped counter value: nonempty all
/// digits once trimmed, and small enough for the counter type.
pub open spec fn counter_ok(s: Seq<char>) -> bool {
    let t = trim_spec(s);
    t.len() > 0 && all_digits(t) && digits_val(t) <= u64::MAX
}

/// The value a well-shaped counter file denotes.
pub open spec fn counter_val(s: Seq<char>) -> int {
    digits_val(trim_spec(s))
}

/// A digit string denotes a non-negative number.
proof fn lemma_digits_val_nonneg(s: Seq<char>)
    requires
        all_digits(s),
    ensures
        digits_val(s) >= 0,
    decreases s.len(),
{
    if s.len() > 0 {
        assert(is_digit(s[s.len() - 1]));
        assert(all_digits(s.drop_last()));
        lemma_digits_val_nonneg(s.drop_last());
    }
}

/// A prefix of a digit string never denotes more than the whole string.
proof fn lemma_digits_val_prefix(s: Seq<char>, i: int, j: int)
    requires
        all_digits(s),
        0 <= i <= j <= s.len(),
    ensures
        digits_val(s.take(i)) <= digits_val(s.take(j)),
    decreases j - i,
{
    if i < j {
        lemma_digits_val_prefix(s, i, j - 1);
        assert(s.take(j).drop_last() =~= s.take(j - 1));
        assert(s.take(j).last() == s[j - 1]);
        assert(is_digit(s[j - 1]));
        assert(all_digits(s.take(j - 1))) by {
            assert(forall|k: int| 0 <= k < j - 1 ==> s.take(j - 1)[k] == s[k]);
        }
        lemma_digits_val_nonneg(s.take(j - 1));
    }
}

/// Whether a character is counter-file whitespace.
fn is_space_exec(c: char) -> (r: bool)
    ensures
        r == is_space(c),
{
    c == ' ' || c == '\t' || c == '\n' || c == '\r' || c == '\u{0b}' || c == '\u{0c}'
}

/// The content of a counter file with surrounding whitespace removed.
pub fn trim_str(s: &str) -> (r: String)
    ensures
        r@ == trim_spec(s@),
{
    let n = s.unicode_len();
    let mut start: usize = 0;
    proof {
        assert(s@.skip(0) =~= s@);
    }
    while start < n && is_space_exec(s.get_char(start))
        invariant
            start <= n,
            n == s@.len(),
            trim_front(s@) == trim_front(s@.skip(start as int)),
        decreases n - start,
    {
        proof {
            assert(s@.skip(start as int).drop_first() =~= s@.skip(start + 1));
            assert(s@.skip(start as int)[0] == s@[start as int]);
        }
        start += 1;
    }
    proof {
        assert(s@.skip(start as int).len() == n - start);
        if start < n {
            assert(s@.skip(start as int)[0] == s@[start as int]);
        }
        assert(trim_front(s@) == s@.skip(start as int));
        assert(s@.skip(start as int) =~= s@.subrange(start as int, n as int));
    }
    let mut end: usize = n;
    while end > start && is_space_exec(s.get_char(end - 1))
        invariant
            start <= end <= n,
            n == s@.len(),
            trim_front(s@) == s@.subrange(start as int, n as int),
            trim_back(s@.subrange(start as int, n as int)) == trim_back(
                s@.subrange(start as int, end as int),
            ),
        decreases end,
    {
        proof {
            let u = s@.subrange(start as int, end as int);
            assert(u.last() == s@[end - 1]);
            assert(u.drop_last() =~= s@.subrange(start as int, end - 1));
        }
        end -= 1;
    }
    proof {
        let u = s@.subrange(start as int, end as int);
        if end > start {
            assert(u.last() == s@[end - 1]);
        }
        assert(trim_back(u) == u);
        assert(trim_spec(s@) == u);
    }
    String::from_str(s.substring_char(start, end))
}

/// Parses a nonempty string of decimal digits. Anything else — empty, a
/// non-digit character, or a value too large for the counter type — is a
/// `ParseError`.
pub fn parse_u64(s: &str) -> (r: Result<u64, NetError>)
    ensures
        (s@.len() > 0 && all_digits(s@) && digits_val(s@) <= u64::MAX) ==> r == Ok::<
            u64,
            NetError,
        >(digits_val(s@) as u64),
        !(s@.len() > 0 && all_digits(s@) && digits_val(s@) <= u64::MAX) ==> r == Err::<
            u64,
            NetError,
        >(NetError::ParseError),
{
    let n = s.unicode_len();
    if n == 0 {
        return Err(NetError::ParseError);
    }
    let mut acc: u64 = 0;
    let mut i: usize = 0;
    proof {
        assert(s@.take(0) =~= Seq::<char>::empty());
    }
    while i < n
        invariant
            i <= n,
            n == s@.len(),
            all_digits(s@.take(i as int)),
            acc as int == digits_val(s@.take(i as int)),
        decreases n - i,
    {
        let c = s.get_char(i);
        proof {
            assert(s@.take(i + 1).drop_last() =~= s@.take(i as int));
            assert(s@.take(i + 1).last() == s@[i as int]);
            assert(s@.take(i + 1) =~= s@.take(i as int).push(s@[i as int]));
        }
        if c < '0' || c > '9' {
            proof {
                assert(!is_digit(s@[i as int]));
            }
            return Err(NetError::ParseError);
        }
        let d: u64 = (c as u32 - 48) as u64;
        proof {
            assert(d as int == digit_val(s@[i as int]));
            assert(all_digits(s@.take(i + 1)));
        }
        if acc > (u64::MAX - d) / 10 {
            proof {
                assert(acc as int * 10 + d as int > u64::MAX) by (nonlinear_arith)
                    requires
                        acc as int > (u64::MAX as int - d as int) / 10,
                        0 <= d as int <= 9,
                ;
                assert(digits_val(s@.take(i + 1)) > u64::MAX);
                lemma_digits_val_prefix_full(s@, i + 1);
            }
            return Err(NetError::ParseError);
        }
        proof {
            assert(acc as int * 10 + d as int <= u64::MAX) by (nonlinear_arith)
                requires
                    acc as int <= (u64::MAX as int - d as int) / 10,
                    0 <= d as int <= 9,
            ;
        }
        acc = acc * 10 + d;
        i += 1;
    }
    proof {
        assert(s@.take(n as int) =~= s@);
    }
    Ok(acc)
}

/// A digit string denoting more than the largest counter value cannot be a
/// prefix of one that denotes a representable value.
proof fn lemma_digits_val_prefix_full(s: Seq<char>, i: int)
    requires
        0 <= i <= s.len(),
        all_digits(s.take(i)),
        digits_val(s.take(i)) > u64::MAX,
    ensures
        all_digits(s) ==> digits_val(s) > u64::MAX,
{
    if all_digits(s) {
        lemma_digits_val_prefix(s, i, s.len() as int);
        assert(s.take(s.len() as int) =~= s);
    }
}

/// Reads one counter file: the decimal value of the whitespace-trimmed
/// content.
pub fn parse_counter(s: &str) -> (r: Result<u64, NetError>)
    ensures
        counter_ok(s@) ==> r == Ok::<u64, NetError>(counter_val(s@) as u64),
        !counter_ok(s@) ==> r == Err::<u64, NetError>(NetError::ParseError),
{
    let t = trim_str(s);
    parse_u64(t.as_str())
}

/// Reads a byte counter file and scales it to bits. A value too large to
/// scale is out of the counter's expected shape and is a `ParseError`.
pub fn parse_bits_counter(s: &str) -> (r: Result<u64, NetError>)
    ensures
        (counter_ok(s@) && counter_val(s@) * 8 <= u64::MAX) ==> r == Ok::<u64, NetError>(
            (counter_val(s@) * 8) as u64,
        ),
        !(counter_ok(s@) && counter_val(s@) * 8 <= u64::MAX) ==> r == Err::<u64, NetError>(
            NetError::ParseError,
        ),
{
    match parse_counter(s) {
        Ok(v) => {
            proof {
                assert(counter_ok(s@));
                lemma_digits_val_nonneg(trim_spec(s@));
                assert(v as int == counter_val(s@));
            }
            if v <= u64::MAX / 8 {
                proof {
                    assert(v as int * 8 <= u64::MAX) by (nonlinear_arith)
                        requires
                            v as int <= (u64::MAX as int) / 8,
                    ;
                }
                Ok(v * 8)
            } else {
                proof {
                    assert(v as int * 8 > u64::MAX) by (nonlinear_arith)
                        requires
                            v as int > (u64::MAX as int) / 8,
                    ;
                }
                Err(NetError::ParseError)
            }
        },
        Err(e) => Err(e),
    }
}

/// Reads the hardware address file: the trimmed content, as displayed.
pub fn parse_address(s: &str) -> (r: String)
    ensures
        r@ == trim_spec(s@),
{
    trim_str(s)
}

} // verus!
