use vstd::prelude::*;
use vstd::string::StringSliceAdditionalSpecFns;

verus! {

/// The decimal digit character for `d`, meaningful for `0 <= d <= 9`.
pub open spec fn digit_char(d: int) -> char {
    if d == 0 {
        '0'
    } else if d == 1 {
        '1'
    } else if d == 2 {
        '2'
    } else if d == 3 {
        '3'
    } else if d == 4 {
        '4'
    } else if d == 5 {
        '5'
    } else if d == 6 {
        '6'
    } else if d == 7 {
        '7'
    } else if d == 8 {
        '8'
    } else {
        '9'
    }
}

/// The decimal numeral of `n`, most significant digit first, without
/// leading zeros.
pub open spec fn dec_seq(n: nat) -> Seq<char>
    decreases n,
{
    if n < 10 {
        seq![digit_char(n as int)]
    } else {
        dec_seq(n / 10) + seq![digit_char((n % 10) as int)]
    }
}

/// Whether `c` is a decimal digit character.
pub open spec fn is_digit(c: char) -> bool {
    48 <= c as int <= 57
}

/// The value of the digit character `c`, meaningful when `is_digit(c)`.
pub open spec fn digit_val(c: char) -> int {
    c as int - 48
}

/// Whether every character of `s` is a decimal digit.
pub open spec fn all_digits(s: Seq<char>) -> bool {
    forall|i: int| 0 <= i < s.len() ==> is_digit(s[i])
}

/// The value of the digit sequence `s`, most significant digit first,
/// meaningful when `all_digits(s)`.
pub open spec fn dec_val(s: Seq<char>) -> int
    decreases s.len(),
{
    if s.len() == 0 {
        0
    } else {
        dec_val(s.drop_last()) * 10 + digit_val(s.last())
    }
}

/// Two-character zero-padded numeral, meaningful for `0 <= n < 100`.
pub open spec fn pad2(n: int) -> Seq<char> {
    seq![digit_char(n / 10), digit_char(n % 10)]
}

/// Three-character zero-padded numeral, meaningful for `0 <= n < 1000`.
pub open spec fn pad3(n: int) -> Seq<char> {
    seq![digit_char(n / 100), digit_char((n / 10) % 10), digit_char(n % 10)]
}

/// Four-character zero-padded numeral, meaningful for `0 <= n < 10000`.
pub open spec fn pad4(n: int) -> Seq<char> {
    seq![
        digit_char(n / 1000),
        digit_char((n / 100) % 10),
        digit_char((n / 10) % 10),
        digit_char(n % 10),
    ]
}

/// The digit characters spell their values.
pub proof fn lemma_digit_char(d: int)
    requires
        0 <= d <= 9,
    ensures
        is_digit(digit_char(d)),
        digit_val(digit_char(d)) == d,
{
}

/// A two-digit decomposition spells its number back.
pub proof fn lemma_digits2(n: int)
    requires
        0 <= n < 100,
    ensures
        (n / 10) * 10 + n % 10 == n,
        0 <= n / 10 <= 9,
        0 <= n % 10 <= 9,
{
    vstd::arithmetic::div_mod::lemma_fundamental_div_mod(n, 10);
}

/// A three-digit decomposition spells its number back.
pub proof fn lemma_digits3(n: int)
    requires
        0 <= n < 1000,
    ensures
        (n / 100) * 100 + ((n / 10) % 10) * 10 + n % 10 == n,
        0 <= n / 100 <= 9,
        0 <= (n / 10) % 10 <= 9,
        0 <= n % 10 <= 9,
{
    vstd::arithmetic::div_mod::lemma_fundamental_div_mod(n, 10);
    vstd::arithmetic::div_mod::lemma_fundamental_div_mod(n / 10, 10);
    vstd::arithmetic::div_mod::lemma_div_denominator(n, 10, 10);
}

/// A four-digit decomposition spells its number back.
pub proof fn lemma_digits4(n: int)
    requires
        0 <= n < 10000,
    ensures
        (n / 1000) * 1000 + ((n / 100) % 10) * 100 + ((n / 10) % 10) * 10 + n % 10 == n,
        0 <= n / 1000 <= 9,
        0 <= (n / 100) % 10 <= 9,
        0 <= (n / 10) % 10 <= 9,
        0 <= n % 10 <= 9,
{
    vstd::arithmetic::div_mod::lemma_fundamental_div_mod(n, 10);
    vstd::arithmetic::div_mod::lemma_fundamental_div_mod(n / 10, 10);
    vstd::arithmetic::div_mod::lemma_div_denominator(n, 10, 10);
    vstd::arithmetic::div_mod::lemma_fundamental_div_mod(n / 100, 10);
    vstd::arithmetic::div_mod::lemma_div_denominator(n, 100, 10);
}

/// The value of a digit sequence is never negative.
pub proof fn lemma_dec_val_nonneg(s: Seq<char>)
    requires
        all_digits(s),
    ensures
        dec_val(s) >= 0,
    decreases s.len(),
{
    if s.len() > 0 {
        assert(all_digits(s.drop_last()));
        lemma_dec_val_nonneg(s.drop_last());
    }
}

/// Reading one more digit multiplies the prefix value by ten and adds it.
pub proof fn lemma_dec_val_take_step(s: Seq<char>, i: int)
    requires
        0 <= i < s.len(),
    ensures
        dec_val(s.take(i + 1)) == dec_val(s.take(i)) * 10 + digit_val(s[i]),
{
    assert(s.take(i + 1).drop_last() =~= s.take(i));
    assert(s.take(i + 1).last() == s[i]);
}

/// The value of a prefix of a digit sequence never exceeds the value of
/// the whole sequence.
pub proof fn lemma_dec_val_take_le(s: Seq<char>, i: int)
    requires
        all_digits(s),
        0 <= i <= s.len(),
    ensures
        dec_val(s.take(i)) <= dec_val(s),
    decreases s.len() - i,
{
    if i == s.len() {
        assert(s.take(i) =~= s);
    } else {
        lemma_dec_val_take_step(s, i);
        assert(all_digits(s.take(i)));
        lemma_dec_val_nonneg(s.take(i));
        lemma_dec_val_take_le(s, i + 1);
    }
}

/// Parses `s` as a decimal `u32`. Returns the value exactly when `s` is a
/// non-empty, all-digit numeral whose value fits in a `u32`.
pub fn parse_u32(s: &str) -> (r: Option<u32>)
    ensures
        match r {
            Some(v) => all_digits(s@) && s@.len() >= 1 && v as int == dec_val(s@),
            None => !(all_digits(s@) && 1 <= s@.len() && dec_val(s@) <= u32::MAX),
        },
{
    proof {
        broadcast use vstd::string::is_ascii_spec_bytes;

    }
    if !s.is_ascii() {
        proof {
            let j = choose|j: int|
                0 <= j < s@.len() && !('\0' <= #[trigger] s@[j] <= '\u{7f}');
            assert(!is_digit(s@[j]));
        }
        return None;
    }
    let bytes = s.as_bytes();
    let n = bytes.len();
    if n == 0 {
        return None;
    }
    let mut acc: u64 = 0;
    let mut i: usize = 0;
    while i < n
        invariant
            vstd::string::is_ascii(s),
            bytes@ == s.spec_bytes(),
            s.spec_bytes() =~= Seq::new(s@.len(), |k: int| s@[k] as u8),
            n == s@.len(),
            0 <= i <= n,
            acc <= u32::MAX,
            acc as int == dec_val(s@.take(i as int)),
            all_digits(s@.take(i as int)),
        decreases n - i,
    {
        let b = bytes[i];
        proof {
            assert(b == s@[i as int] as u8);
            assert(s@[i as int] <= '\u{7f}');
            assert(s@[i as int] as int == b as int);
        }
        if b < 48 || b > 57 {
            proof {
                assert(!is_digit(s@[i as int]));
            }
            return None;
        }
        let d = (b - 48) as u64;
        let acc2 = acc * 10 + d;
        proof {
            lemma_dec_val_take_step(s@, i as int);
            assert(digit_val(s@[i as int]) == d as int);
            assert(acc2 as int == dec_val(s@.take(i as int + 1)));
            assert(all_digits(s@.take(i as int + 1)));
        }
        if acc2 > u32::MAX as u64 {
            proof {
                if all_digits(s@) {
                    lemma_dec_val_take_le(s@, i as int + 1);
                }
            }
            return None;
        }
        acc = acc2;
        i = i + 1;
    }
    proof {
        assert(s@.take(n as int) =~= s@);
    }
    Some(acc as u32)
}

/// The one-character string holding the decimal digit `d`.
pub fn digit_str(d: u8) -> (r: &'static str)
    requires
        d < 10,
    ensures
        r@ == seq![digit_char(d as int)],
{
    let r = match d {
        0 => "0",
        1 => "1",
        2 => "2",
        3 => "3",
        4 => "4",
        5 => "5",
        6 => "6",
        7 => "7",
        8 => "8",
        _ => "9",
    };
    proof {
        reveal_strlit("0");
        reveal_strlit("1");
        reveal_strlit("2");
        reveal_strlit("3");
        reveal_strlit("4");
        reveal_strlit("5");
        reveal_strlit("6");
        reveal_strlit("7");
        reveal_strlit("8");
        reveal_strlit("9");
        assert(r@ =~= seq![digit_char(d as int)]);
    }
    r
}

/// Renders `n` as its decimal numeral.
pub fn u64_dec(n: u64) -> (s: String)
    ensures
        s@ == dec_seq(n as nat),
    decreases n,
{
    if n < 10 {
        let s = digit_str(n as u8).to_owned();
        proof {
            assert(s@ =~= dec_seq(n as nat));
        }
        s
    } else {
        let mut s = u64_dec(n / 10);
        s.append(digit_str((n % 10) as u8));
        proof {
            assert(s@ =~= dec_seq(n as nat));
        }
        s
    }
}

/// Renders `n` as exactly two digits, zero padded.
pub fn pad2_str(n: u8) -> (s: String)
    requires
        n < 100,
    ensures
        s@ == pad2(n as int),
{
    let mut s = digit_str(n / 10).to_owned();
    s.append(digit_str(n % 10));
    proof {
        assert(s@ =~= pad2(n as int));
    }
    s
}

/// Renders `n` as exactly three digits, zero padded.
pub fn pad3_str(n: u16) -> (s: String)
    requires
        n < 1000,
    ensures
        s@ == pad3(n as int),
{
    let mut s = digit_str((n / 100) as u8).to_owned();
    s.append(digit_str(((n / 10) % 10) as u8));
    s.append(digit_str((n % 10) as u8));
    proof {
        assert(s@ =~= pad3(n as int));
    }
    s
}

/// Renders `n` as exactly four digits, zero padded.
pub fn pad4_str(n: u16) -> (s: String)
    requires
        n < 10000,
    ensures
        s@ == pad4(n as int),
{
    let mut s = digit_str((n / 1000) as u8).to_owned();
    s.append(digit_str(((n / 100) % 10) as u8));
    s.append(digit_str(((n / 10) % 10) as u8));
    s.append(digit_str((n % 10) as u8));
    proof {
        assert(s@ =~= pad4(n as int));
    }
    s
}

} // verus!
