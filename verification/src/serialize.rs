//! Printing values as CSS text: decimal digits, numbers (rationals are
//! printed with up to ten fractional digits, trailing zeros trimmed), and
//! the textual form of every value.

use vstd::prelude::*;
use crate::common::Brackets;
use crate::number::Number;
use crate::strutil::chars_to_string;
use crate::value::{pair_value_model, seq_value_model, value_model, Value, ValueModel};

verus! {

/// The decimal digit character for a value below ten.
pub open spec fn spec_digit(d: int) -> char {
    if d == 0 {
        '0'
    } else if d == 1 {
        '1'
    } else if d == 2 {
        '2'
    } else if d == 3 {
        '3'
    } else if d == 4 {
        '4'
    } else if d == 5 {
        '5'
    } else if d == 6 {
        '6'
    } else if d == 7 {
        '7'
    } else if d == 8 {
        '8'
    } else {
        '9'
    }
}

/// The decimal digits of a whole number, most significant first.
pub open spec fn spec_udigits(n: nat) -> Seq<char>
    decreases n,
{
    if n < 10 {
        seq![spec_digit(n as int)]
    } else {
        spec_udigits(n / 10) + seq![spec_digit((n % 10) as int)]
    }
}

/// The hexadecimal digit character for a value below sixteen.
pub open spec fn spec_hex_digit(d: int) -> char {
    if d < 10 {
        spec_digit(d)
    } else if d == 10 {
        'a'
    } else if d == 11 {
        'b'
    } else if d == 12 {
        'c'
    } else if d == 13 {
        'd'
    } else if d == 14 {
        'e'
    } else {
        'f'
    }
}

/// Two hexadecimal digits of a byte.
pub open spec fn spec_hex2(n: int) -> Seq<char> {
    seq![spec_hex_digit(n / 16), spec_hex_digit(n % 16)]
}

/// Powers of ten.
pub open spec fn spec_pow10(k: nat) -> nat
    decreases k,
{
    if k == 0 {
        1
    } else {
        10 * spec_pow10((k - 1) as nat)
    }
}

/// A number below the k-th power of ten has at most k digits.
pub proof fn lemma_udigits_len_le(n: nat, k: nat)
    requires
        k >= 1,
        n < spec_pow10(k),
    ensures
        1 <= spec_udigits(n).len() <= k,
    decreases k,
{
    if n < 10 {
    } else {
        assert(spec_pow10(k) == 10 * spec_pow10((k - 1) as nat));
        vstd::arithmetic::div_mod::lemma_multiply_divide_lt(
            n as int,
            10,
            spec_pow10((k - 1) as nat) as int,
        );
        if k == 1 {
            assert(spec_pow10(0) == 1);
            assert(false);
        }
        lemma_udigits_len_le(n / 10, (k - 1) as nat);
    }
}

/// A run of zeros.
pub open spec fn spec_zeros(n: nat) -> Seq<char>
    decreases n,
{
    if n == 0 {
        Seq::empty()
    } else {
        seq!['0'] + spec_zeros((n - 1) as nat)
    }
}

/// The text with its trailing zeros removed.
pub open spec fn spec_trim_zeros(s: Seq<char>) -> Seq<char>
    decreases s.len(),
{
    if s.len() > 0 && s.last() == '0' {
        spec_trim_zeros(s.drop_last())
    } else {
        s
    }
}

/// A whole number with its sign.
pub open spec fn spec_int_string(i: int) -> Seq<char> {
    if i < 0 {
        seq!['-'] + spec_udigits((-i) as nat)
    } else {
        spec_udigits(i as nat)
    }
}

/// How a number prints: whole numbers as plain digits, rationals with a
/// point and up to ten fractional digits, trailing zeros trimmed. A
/// denominator below one never leaves a constructor; such a raw value
/// prints as its numerator.
pub open spec fn spec_number_string(n: Number) -> Seq<char> {
    if n.denom < 1 {
        spec_int_string(n.numer as int)
    } else {
        spec_number_string_wf(n)
    }
}

/// The printed form of a well-formed number.
pub open spec fn spec_number_string_wf(n: Number) -> Seq<char> {
    let mag = if n.numer >= 0 {
        n.numer as int
    } else {
        -n.numer as int
    };
    let sign: Seq<char> = if n.numer < 0 {
        seq!['-']
    } else {
        Seq::empty()
    };
    let ip = mag / n.denom as int;
    let rem = mag % n.denom as int;
    if rem == 0 {
        sign + spec_udigits(ip as nat)
    } else {
        let frac = rem * 10_000_000_000 / n.denom as int;
        let digits = spec_udigits(frac as nat);
        let padded = spec_zeros((10 - digits.len()) as nat) + digits;
        let trimmed = spec_trim_zeros(padded);
        if trimmed.len() == 0 {
            sign + spec_udigits(ip as nat)
        } else {
            sign + spec_udigits(ip as nat) + seq!['.'] + trimmed
        }
    }
}

/// Appends the decimal digits of a whole number.
pub fn push_udigits(n: u64, out: &mut Vec<char>)
    ensures
        final(out)@ == old(out)@ + spec_udigits(n as nat),
    decreases n,
{
    if n < 10 {
        out.push(digit_char(n));
        proof {
            assert(out@ =~= old(out)@ + spec_udigits(n as nat));
        }
    } else {
        push_udigits(n / 10, out);
        out.push(digit_char(n % 10));
        proof {
            assert(out@ =~= old(out)@ + spec_udigits(n as nat));
        }
    }
}

/// The character of one decimal digit.
pub fn digit_char(d: u64) -> (c: char)
    requires
        d < 10,
    ensures
        c == spec_digit(d as int),
{
    match d {
        0 => '0',
        1 => '1',
        2 => '2',
        3 => '3',
        4 => '4',
        5 => '5',
        6 => '6',
        7 => '7',
        8 => '8',
        _ => '9',
    }
}

/// The character of one hexadecimal digit.
pub fn hex_digit_char(d: u8) -> (c: char)
    requires
        d < 16,
    ensures
        c == spec_hex_digit(d as int),
{
    match d {
        0 => '0',
        1 => '1',
        2 => '2',
        3 => '3',
        4 => '4',
        5 => '5',
        6 => '6',
        7 => '7',
        8 => '8',
        9 => '9',
        10 => 'a',
        11 => 'b',
        12 => 'c',
        13 => 'd',
        14 => 'e',
        _ => 'f',
    }
}

/// Appends the two hexadecimal digits of a byte.
pub fn push_hex2(n: u8, out: &mut Vec<char>)
    ensures
        final(out)@ == old(out)@ + spec_hex2(n as int),
{
    out.push(hex_digit_char(n / 16));
    out.push(hex_digit_char(n % 16));
    proof {
        assert(out@ =~= old(out)@ + spec_hex2(n as int));
    }
}

/// A whole number over a denominator of one prints as the bare integer.
proof fn lemma_int_string_as_whole(i: int)
    requires
        -0x8000_0000_0000_0000 <= i <= 0x7fff_ffff_ffff_ffff,
    ensures
        spec_number_string(Number { numer: i as i64, denom: 1 }) == spec_int_string(i),
{
    let n = Number { numer: i as i64, denom: 1 };
    let mag = if n.numer >= 0 {
        n.numer as int
    } else {
        -n.numer as int
    };
    vstd::arithmetic::div_mod::lemma_fundamental_div_mod(mag, 1);
    assert(mag % 1 == 0);
    assert(mag / 1 == mag) by {
        vstd::arithmetic::div_mod::lemma_div_multiples_vanish(mag, 1);
    }
    assert(spec_number_string(n) =~= spec_int_string(i));
}

/// Appends the printed form of a number.
#[verifier::rlimit(100)]
pub fn push_number(n: &Number, out: &mut Vec<char>)
    requires
        n.inv(),
    ensures
        final(out)@ == old(out)@ + spec_number_string(*n),
{
    let neg: bool = n.numer < 0;
    let mag: u64 = if neg {
        (-(n.numer as i128)) as u64
    } else {
        n.numer as u64
    };
    let d: u64 = n.denom as u64;
    if neg {
        out.push('-');
    }
    let ip: u64 = mag / d;
    let rem: u64 = mag % d;
    if rem == 0 {
        push_udigits(ip, out);
        proof {
            assert(out@ =~= old(out)@ + spec_number_string(*n));
        }
        return ;
    }
    push_udigits(ip, out);
    let frac: u64 = ((rem as u128) * 10_000_000_000u128 / (d as u128)) as u64;
    proof {
        vstd::arithmetic::div_mod::lemma_mod_division_less_than_divisor(mag as int, d as int);
        assert((rem as int) * 10_000_000_000 < (d as int) * 10_000_000_000) by (nonlinear_arith)
            requires
                (rem as int) < (d as int),
        ;
        vstd::arithmetic::div_mod::lemma_multiply_divide_lt(
            (rem as int) * 10_000_000_000,
            d as int,
            10_000_000_000,
        );
        vstd::arithmetic::div_mod::lemma_div_pos_is_pos((rem as int) * 10_000_000_000, d as int);
    }
    let mut digits: Vec<char> = Vec::new();
    push_udigits(frac, &mut digits);
    proof {
        reveal_with_fuel(spec_pow10, 11);
        assert(spec_pow10(10) == 10_000_000_000);
        lemma_udigits_len_le(frac as nat, 10);
    }
    let mut padded: Vec<char> = Vec::new();
    #[verifier::loop_isolation(false)]
    while padded.len() + digits.len() < 10
        invariant
            padded@ =~= spec_zeros(padded@.len()),
            digits@ == spec_udigits(frac as nat),
            padded@.len() + digits@.len() <= 10,
        decreases 10 - padded@.len(),
    {
        padded.push('0');
        proof {
            lemma_zeros_snoc(padded@.len());
        }
    }
    proof {
        assert(padded@ =~= spec_zeros((10 - digits@.len()) as nat) + digits@.subrange(0, 0));
    }
    let mut k: usize = 0;
    #[verifier::loop_isolation(false)]
    while k < digits.len()
        invariant
            k <= digits@.len(),
            padded@ == spec_zeros((10 - digits@.len()) as nat) + digits@.subrange(0, k as int),
            digits@ == spec_udigits(frac as nat),
            digits@.len() <= 10,
        decreases digits@.len() - k,
    {
        padded.push(digits[k]);
        proof {
            assert(padded@ =~= spec_zeros((10 - digits@.len()) as nat) + digits@.subrange(
                0,
                k + 1 as int,
            ));
        }
        k = k + 1;
    }
    proof {
        assert(digits@.subrange(0, digits@.len() as int) =~= digits@);
    }
    #[verifier::loop_isolation(false)]
    while padded.len() > 0 && padded[padded.len() - 1] == '0'
        invariant
            spec_trim_zeros(padded@) == spec_trim_zeros(
                spec_zeros((10 - spec_udigits(frac as nat).len()) as nat) + spec_udigits(
                    frac as nat,
                ),
            ),
        decreases padded@.len(),
    {
        proof {
            assert(padded@.drop_last() =~= padded@.subrange(0, padded@.len() - 1));
        }
        padded.pop();
    }
    proof {
        assert(spec_trim_zeros(padded@) == padded@);
    }
    if padded.len() > 0 {
        out.push('.');
        let mut k2: usize = 0;
        let ghost mid: Seq<char> = out@;
        #[verifier::loop_isolation(false)]
        while k2 < padded.len()
            invariant
                k2 <= padded@.len(),
                out@ == mid + padded@.subrange(0, k2 as int),
            decreases padded@.len() - k2,
        {
            out.push(padded[k2]);
            proof {
                assert(out@ =~= mid + padded@.subrange(0, k2 + 1 as int));
            }
            k2 = k2 + 1;
        }
        proof {
            assert(padded@.subrange(0, padded@.len() as int) =~= padded@);
        }
    }
    proof {
        assert(out@ =~= old(out)@ + spec_number_string(*n));
    }
}

/// Each zero extends the run by one.
proof fn lemma_zeros_snoc(n: nat)
    ensures
        n > 0 ==> spec_zeros(n) == spec_zeros((n - 1) as nat) + seq!['0'],
    decreases n,
{
    if n > 1 {
        lemma_zeros_snoc((n - 1) as nat);
        assert(spec_zeros(n) =~= spec_zeros((n - 1) as nat) + seq!['0']);
    } else if n == 1 {
        assert(spec_zeros(0) =~= Seq::<char>::empty());
        assert(spec_zeros(1) =~= spec_zeros(0) + seq!['0']);
    }
}

/// The printed form of a number as a string.
pub fn number_to_string(n: &Number) -> (r: String)
    requires
        n.inv(),
    ensures
        r@ == spec_number_string(*n),
{
    let mut out: Vec<char> = Vec::new();
    push_number(n, &mut out);
    chars_to_string(&out)
}

/// Appends every character of a string slice.
pub fn push_str_chars(s: &str, out: &mut Vec<char>)
    ensures
        final(out)@ == old(out)@ + s@,
{
    let n: usize = s.unicode_len();
    let mut i: usize = 0;
    #[verifier::loop_isolation(false)]
    while i < n
        invariant
            n == s@.len(),
            i <= n,
            out@ == old(out)@ + s@.subrange(0, i as int),
        decreases n - i,
    {
        out.push(s.get_char(i));
        proof {
            assert(out@ =~= old(out)@ + s@.subrange(0, i + 1 as int));
        }
        i = i + 1;
    }
    proof {
        assert(s@.subrange(0, n as int) =~= s@);
    }
}

/// The textual form of a value, as it prints into CSS output. This is
/// also the inspect form: quotes on strings and brackets on lists are
/// preserved.
pub open spec fn spec_value_string(m: ValueModel) -> Seq<char>
    decreases m, 0int,
{
    match m {
        ValueModel::Important => "!important"@,
        ValueModel::True => "true"@,
        ValueModel::False => "false"@,
        ValueModel::Null => "null"@,
        ValueModel::Dimension(n, u) => spec_number_string(n) + u.spec_name(),
        ValueModel::List(items, sep, br) => {
            proof {
                assert(decreases_to!(m => items));
            }
            let inner = spec_join_values(items, sep.spec_str());
            if br is Bracketed {
                seq!['['] + inner + seq![']']
            } else {
                inner
            }
        },
        ValueModel::Color(c) => {
            if c.alpha.same_value(crate::number::Number { numer: 1, denom: 1 }) {
                seq!['#'] + spec_hex2(c.red as int) + spec_hex2(c.green as int) + spec_hex2(
                    c.blue as int,
                )
            } else {
                "rgba("@ + spec_udigits(c.red as nat) + ", "@ + spec_udigits(c.green as nat)
                    + ", "@ + spec_udigits(c.blue as nat) + ", "@ + spec_number_string(c.alpha)
                    + ")"@
            }
        },
        ValueModel::BinaryOp(l, op, r) => spec_value_string(*l) + op.spec_str() + spec_value_string(
            *r,
        ),
        ValueModel::Paren(inner) => spec_value_string(*inner),
        ValueModel::Ident(s, q) => q.spec_str() + s + q.spec_str(),
        ValueModel::SassMap(pairs) => {
            proof {
                assert(decreases_to!(m => pairs));
            }
            seq!['('] + spec_join_pairs(pairs, ", "@) + seq![')']
        },
        ValueModel::ArgList(items) => {
            proof {
                assert(decreases_to!(m => items));
            }
            spec_join_values(items, ", "@)
        },
    }
}

/// Items joined by a separator.
pub open spec fn spec_join_values(items: Seq<ValueModel>, sep: Seq<char>) -> Seq<char>
    decreases items, 1int,
{
    if items.len() == 0 {
        Seq::empty()
    } else {
        proof {
            assert(decreases_to!(items => items[0]));
        }
        spec_value_string(items[0]) + spec_join_tail(items.subrange(1, items.len() as int), sep)
    }
}

/// Items each preceded by the separator.
pub open spec fn spec_join_tail(items: Seq<ValueModel>, sep: Seq<char>) -> Seq<char>
    decreases items, 0int,
{
    if items.len() == 0 {
        Seq::empty()
    } else {
        proof {
            assert(decreases_to!(items => items[0]));
            assert(decreases_to!(items => items.subrange(1, items.len() as int)));
        }
        sep + spec_value_string(items[0]) + spec_join_tail(
            items.subrange(1, items.len() as int),
            sep,
        )
    }
}

/// One key-value pair, printed with a colon.
pub open spec fn spec_pair_string(p: (ValueModel, ValueModel)) -> Seq<char>
    decreases p, 0int,
{
    spec_value_string(p.0) + ": "@ + spec_value_string(p.1)
}

/// Pairs joined by a separator.
pub open spec fn spec_join_pairs(pairs: Seq<(ValueModel, ValueModel)>, sep: Seq<char>) -> Seq<char>
    decreases pairs, 1int,
{
    if pairs.len() == 0 {
        Seq::empty()
    } else {
        proof {
            assert(decreases_to!(pairs => pairs[0]));
        }
        spec_pair_string(pairs[0]) + spec_join_pairs_tail(
            pairs.subrange(1, pairs.len() as int),
            sep,
        )
    }
}

/// Pairs each preceded by the separator.
pub open spec fn spec_join_pairs_tail(
    pairs: Seq<(ValueModel, ValueModel)>,
    sep: Seq<char>,
) -> Seq<char>
    decreases pairs, 0int,
{
    if pairs.len() == 0 {
        Seq::empty()
    } else {
        proof {
            assert(decreases_to!(pairs => pairs[0]));
            assert(decreases_to!(pairs => pairs.subrange(1, pairs.len() as int)));
        }
        sep + spec_pair_string(pairs[0]) + spec_join_pairs_tail(
            pairs.subrange(1, pairs.len() as int),
            sep,
        )
    }
}

/// Appending an item extends the tail join by one separator and item.
proof fn lemma_join_tail_snoc(items: Seq<ValueModel>, sep: Seq<char>, x: ValueModel)
    ensures
        spec_join_tail(items.push(x), sep) == spec_join_tail(items, sep) + sep
            + spec_value_string(x),
    decreases items.len(),
{
    let p = items.push(x);
    if items.len() == 0 {
        assert(p.subrange(1, p.len() as int) =~= Seq::<ValueModel>::empty());
        assert(p[0] == x);
        assert(spec_join_tail(p, sep) == sep + spec_value_string(x) + spec_join_tail(
            p.subrange(1, p.len() as int),
            sep,
        ));
        assert(spec_join_tail(items, sep) == Seq::<char>::empty());
        assert(spec_join_tail(p, sep) =~= spec_join_tail(items, sep) + sep + spec_value_string(x));
    } else {
        let t = items.subrange(1, items.len() as int);
        assert(p.subrange(1, p.len() as int) =~= t.push(x));
        assert(p[0] == items[0]);
        lemma_join_tail_snoc(t, sep, x);
        assert(spec_join_tail(p, sep) == sep + spec_value_string(items[0]) + spec_join_tail(
            t.push(x),
            sep,
        ));
        assert(spec_join_tail(items, sep) == sep + spec_value_string(items[0]) + spec_join_tail(
            t,
            sep,
        ));
        assert(spec_join_tail(p, sep) =~= spec_join_tail(items, sep) + sep + spec_value_string(x));
    }
}

/// Appending a pair extends the pair tail join by one separator and pair.
proof fn lemma_join_pairs_tail_snoc(
    pairs: Seq<(ValueModel, ValueModel)>,
    sep: Seq<char>,
    x: (ValueModel, ValueModel),
)
    ensures
        spec_join_pairs_tail(pairs.push(x), sep) == spec_join_pairs_tail(pairs, sep) + sep
            + spec_pair_string(x),
    decreases pairs.len(),
{
    let p = pairs.push(x);
    if pairs.len() == 0 {
        assert(p.subrange(1, p.len() as int) =~= Seq::<(ValueModel, ValueModel)>::empty());
        assert(p[0] == x);
        assert(spec_join_pairs_tail(p, sep) == sep + spec_pair_string(x) + spec_join_pairs_tail(
            p.subrange(1, p.len() as int),
            sep,
        ));
        assert(spec_join_pairs_tail(pairs, sep) == Seq::<char>::empty());
        assert(spec_join_pairs_tail(p, sep) =~= spec_join_pairs_tail(pairs, sep) + sep
            + spec_pair_string(x));
    } else {
        let t = pairs.subrange(1, pairs.len() as int);
        assert(p.subrange(1, p.len() as int) =~= t.push(x));
        assert(p[0] == pairs[0]);
        lemma_join_pairs_tail_snoc(t, sep, x);
        assert(spec_join_pairs_tail(p, sep) == sep + spec_pair_string(pairs[0])
            + spec_join_pairs_tail(t.push(x), sep));
        assert(spec_join_pairs_tail(pairs, sep) == sep + spec_pair_string(pairs[0])
            + spec_join_pairs_tail(t, sep));
        assert(spec_join_pairs_tail(p, sep) =~= spec_join_pairs_tail(pairs, sep) + sep
            + spec_pair_string(x));
    }
}


/// Appends a list value.
#[verifier::rlimit(60)]
pub fn push_list(items: &Vec<Value>, sep: crate::value::ListSeparator, br: Brackets, out: &mut Vec<char>)
    ensures
        final(out)@ == old(out)@ + spec_value_string(
            ValueModel::List(seq_value_model(items@), sep, br),
        ),
    decreases items@,
{
    broadcast use crate::value::lemma_seq_value_model_len, crate::value::lemma_seq_value_model_index;

    let ghost v: ValueModel = ValueModel::List(seq_value_model(items@), sep, br);
            let bracketed: bool = matches!(br, Brackets::Bracketed);
            if bracketed {
                out.push('[');
            }
            let ghost base: Seq<char> = out@;
            let ghost models: Seq<ValueModel> = seq_value_model(items@);
            let ghost sepchars: Seq<char> = sep.spec_str();
            let mut i: usize = 0;
            #[verifier::loop_isolation(false)]
            while i < items.len()
                invariant
                    i <= items@.len(),
                    out@ == if i == 0 {
                        base
                    } else {
                        base + spec_value_string(models[0]) + spec_join_tail(
                            models.subrange(1, i as int),
                            sepchars,
                        )
                    },
                decreases items@.len() - i,
            {
                if i > 0 {
                    push_str_chars(sep.as_str(), out);
                    push_value(&items[i], out);
                    proof {
                        assert(models.subrange(1, i as int).push(models[i as int])
                            =~= models.subrange(1, i + 1 as int));
                        lemma_join_tail_snoc(models.subrange(1, i as int), sepchars, models[i as int]);
                        assert(out@ =~= base + spec_value_string(models[0]) + spec_join_tail(
                            models.subrange(1, i + 1 as int),
                            sepchars,
                        ));
                    }
                } else {
                    push_value(&items[i], out);
                    proof {
                        assert(models.subrange(1, 1) =~= Seq::<ValueModel>::empty());
                        assert(out@ =~= base + spec_value_string(models[0]) + spec_join_tail(
                            models.subrange(1, 1),
                            sepchars,
                        ));
                    }
                }
                i = i + 1;
            }
            proof {
                if items@.len() > 0 {
                    assert(models.subrange(1, models.len() as int) =~= models.subrange(
                        1,
                        items@.len() as int,
                    ));
                    assert(spec_join_values(models, sepchars) == spec_value_string(models[0])
                        + spec_join_tail(models.subrange(1, models.len() as int), sepchars));
                } else {
                    assert(models.len() == 0);
                    assert(spec_join_values(models, sepchars) == Seq::<char>::empty());
                }
                assert(out@ =~= base + spec_join_values(models, sepchars));
            }
            if bracketed {
                out.push(']');
            }
            proof {
                assert(out@ =~= old(out)@ + spec_value_string(v));
            }
        
    proof {
        assert(out@ =~= old(out)@ + spec_value_string(v));
    }
}

/// Appends a map value.
#[verifier::rlimit(60)]
pub fn push_map(pairs: &Vec<(Value, Value)>, out: &mut Vec<char>)
    ensures
        final(out)@ == old(out)@ + spec_value_string(ValueModel::SassMap(pair_value_model(pairs@))),
    decreases pairs@,
{
    broadcast use crate::value::lemma_pair_value_model_len, crate::value::lemma_pair_value_model_index;

    let ghost v: ValueModel = ValueModel::SassMap(pair_value_model(pairs@));
            out.push('(');
            let ghost base: Seq<char> = out@;
            let ghost models: Seq<(ValueModel, ValueModel)> = pair_value_model(pairs@);
            let mut i: usize = 0;
            #[verifier::loop_isolation(false)]
            while i < pairs.len()
                invariant
                    i <= pairs@.len(),
                    out@ == if i == 0 {
                        base
                    } else {
                        base + spec_pair_string(models[0]) + spec_join_pairs_tail(
                            models.subrange(1, i as int),
                            ", "@,
                        )
                    },
                decreases pairs@.len() - i,
            {
                if i > 0 {
                    push_str_chars(", ", out);
                }
                let ghost before: Seq<char> = out@;
                push_value(&pairs[i].0, out);
                push_str_chars(": ", out);
                push_value(&pairs[i].1, out);
                proof {
                    assert(out@ =~= before + spec_pair_string(models[i as int]));
                    if i > 0 {
                        assert(models.subrange(1, i as int).push(models[i as int])
                            =~= models.subrange(1, i + 1 as int));
                        lemma_join_pairs_tail_snoc(
                            models.subrange(1, i as int),
                            ", "@,
                            models[i as int],
                        );
                        assert(out@ =~= base + spec_pair_string(models[0]) + spec_join_pairs_tail(
                            models.subrange(1, i + 1 as int),
                            ", "@,
                        ));
                    } else {
                        assert(models.subrange(1, 1) =~= Seq::<(ValueModel, ValueModel)>::empty());
                        assert(out@ =~= base + spec_pair_string(models[0]) + spec_join_pairs_tail(
                            models.subrange(1, 1),
                            ", "@,
                        ));
                    }
                }
                i = i + 1;
            }
            proof {
                if pairs@.len() > 0 {
                    assert(models.subrange(1, models.len() as int) =~= models.subrange(
                        1,
                        pairs@.len() as int,
                    ));
                    assert(spec_join_pairs(models, ", "@) == spec_pair_string(models[0])
                        + spec_join_pairs_tail(models.subrange(1, models.len() as int), ", "@));
                } else {
                    assert(models.len() == 0);
                    assert(spec_join_pairs(models, ", "@) == Seq::<char>::empty());
                }
                assert(out@ =~= base + spec_join_pairs(models, ", "@));
            }
            out.push(')');
            proof {
                assert(out@ =~= old(out)@ + spec_value_string(v));
            }
        
    proof {
        assert(out@ =~= old(out)@ + spec_value_string(v));
    }
}

/// Appends the arguments a variadic parameter received.
#[verifier::rlimit(60)]
pub fn push_arglist(items: &Vec<Value>, out: &mut Vec<char>)
    ensures
        final(out)@ == old(out)@ + spec_value_string(ValueModel::ArgList(seq_value_model(items@))),
    decreases items@,
{
    broadcast use crate::value::lemma_seq_value_model_len, crate::value::lemma_seq_value_model_index;

    let ghost v: ValueModel = ValueModel::ArgList(seq_value_model(items@));
            let ghost base: Seq<char> = out@;
            let ghost models: Seq<ValueModel> = seq_value_model(items@);
            let mut i: usize = 0;
            #[verifier::loop_isolation(false)]
            while i < items.len()
                invariant
                    i <= items@.len(),
                    out@ == if i == 0 {
                        base
                    } else {
                        base + spec_value_string(models[0]) + spec_join_tail(
                            models.subrange(1, i as int),
                            ", "@,
                        )
                    },
                decreases items@.len() - i,
            {
                if i > 0 {
                    push_str_chars(", ", out);
                    push_value(&items[i], out);
                    proof {
                        assert(models.subrange(1, i as int).push(models[i as int])
                            =~= models.subrange(1, i + 1 as int));
                        lemma_join_tail_snoc(models.subrange(1, i as int), ", "@, models[i as int]);
                        assert(out@ =~= base + spec_value_string(models[0]) + spec_join_tail(
                            models.subrange(1, i + 1 as int),
                            ", "@,
                        ));
                    }
                } else {
                    push_value(&items[i], out);
                    proof {
                        assert(models.subrange(1, 1) =~= Seq::<ValueModel>::empty());
                        assert(out@ =~= base + spec_value_string(models[0]) + spec_join_tail(
                            models.subrange(1, 1),
                            ", "@,
                        ));
                    }
                }
                i = i + 1;
            }
            proof {
                if items@.len() > 0 {
                    assert(models.subrange(1, models.len() as int) =~= models.subrange(
                        1,
                        items@.len() as int,
                    ));
                    assert(spec_join_values(models, ", "@) == spec_value_string(models[0])
                        + spec_join_tail(models.subrange(1, models.len() as int), ", "@));
                } else {
                    assert(models.len() == 0);
                    assert(spec_join_values(models, ", "@) == Seq::<char>::empty());
                }
                assert(out@ =~= base + spec_join_values(models, ", "@));
                assert(out@ =~= old(out)@ + spec_value_string(v));
            }
        
    proof {
        assert(out@ =~= old(out)@ + spec_value_string(v));
    }
}

/// Appends the textual form of a value.
#[verifier::rlimit(60)]
pub fn push_value(v: &Value, out: &mut Vec<char>)
    ensures
        final(out)@ == old(out)@ + spec_value_string(v@),
    decreases *v,
{
    broadcast use crate::value::lemma_seq_value_model_len, crate::value::lemma_seq_value_model_index, crate::value::lemma_pair_value_model_len, crate::value::lemma_pair_value_model_index;

    match v {
        Value::Important => push_str_chars("!important", out),
        Value::True => push_str_chars("true", out),
        Value::False => push_str_chars("false", out),
        Value::Null => push_str_chars("null", out),
        Value::Dimension(n, u) => {
            if n.denom >= 1 {
                push_number(n, out);
            } else {
                // A denominator below one never leaves a constructor; the
                // raw value prints as its numerator.
                let whole = crate::number::Number { numer: n.numer, denom: 1 };
                push_number(&whole, out);
                proof {
                    lemma_int_string_as_whole(n.numer as int);
                }
            }
            push_str_chars(u.as_str(), out);
            proof {
                assert(out@ =~= old(out)@ + spec_value_string(v@));
            }
        },
        Value::List(items, sep, br) => {
            push_list(items, *sep, *br, out);
        },
        Value::Color(c) => {
            let one = crate::number::Number { numer: 1, denom: 1 };
            if c.alpha.same_value_as(&one) {
                out.push('#');
                push_hex2(c.red, out);
                push_hex2(c.green, out);
                push_hex2(c.blue, out);
            } else {
                push_str_chars("rgba(", out);
                push_udigits(c.red as u64, out);
                push_str_chars(", ", out);
                push_udigits(c.green as u64, out);
                push_str_chars(", ", out);
                push_udigits(c.blue as u64, out);
                push_str_chars(", ", out);
                if c.alpha.denom >= 1 {
                    push_number(&c.alpha, out);
                } else {
                    let whole = crate::number::Number { numer: c.alpha.numer, denom: 1 };
                    push_number(&whole, out);
                    proof {
                        lemma_int_string_as_whole(c.alpha.numer as int);
                    }
                }
                push_str_chars(")", out);
            }
            proof {
                assert(out@ =~= old(out)@ + spec_value_string(v@));
            }
        },
        Value::BinaryOp(l, op, r) => {
            push_value(&**l, out);
            push_str_chars(op.as_str(), out);
            push_value(&**r, out);
            proof {
                assert(out@ =~= old(out)@ + spec_value_string(v@));
            }
        },
        Value::Paren(inner) => {
            push_value(&**inner, out);
        },
        Value::Ident(s, q) => {
            push_str_chars(q.as_str(), out);
            push_str_chars(s.as_str(), out);
            push_str_chars(q.as_str(), out);
            proof {
                assert(out@ =~= old(out)@ + spec_value_string(v@));
            }
        },
        Value::SassMap(pairs) => {
            push_map(pairs, out);
        },
        Value::ArgList(items) => {
            push_arglist(items, out);
        },
    }
}

impl Value {
    /// The value as CSS text.
    pub fn to_css_string(&self) -> (r: String)
        ensures
            r@ == spec_value_string(self@),
    {
        let mut out: Vec<char> = Vec::new();
        push_value(self, &mut out);
        chars_to_string(&out)
    }

    /// The inspect form used by diagnostics; it preserves quotes on
    /// strings and brackets on lists, as the textual form does.
    pub fn inspect(&self) -> (r: String)
        ensures
            r@ == spec_value_string(self@),
    {
        self.to_css_string()
    }
}


} // verus!
