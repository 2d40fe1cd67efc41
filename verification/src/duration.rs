//! Durations as whole milliseconds: parsing the prober's decimal-seconds
//! strings and rendering playlist durations with six fractional digits.

use vstd::prelude::*;

use crate::text::{dec_rep, digit_char, digit_str, push_dec};

verus! {

/// Whether `c` is a decimal digit.
pub open spec fn is_digit(c: char) -> bool {
    48 <= c as int <= 57
}

/// The numeric value of the digit `c`.
pub open spec fn digit_val(c: char) -> int {
    c as int - 48
}

/// Whether every character of `s` is a decimal digit.
pub open spec fn all_digits(s: Seq<char>) -> bool {
    forall|j: int| 0 <= j < s.len() ==> is_digit(#[trigger] s[j])
}

/// The value of the digit string `s`, most significant digit first.
pub open spec fn dec_value(s: Seq<char>) -> int
    decreases s.len(),
{
    if s.len() == 0 {
        0
    } else {
        dec_value(s.drop_last()) * 10 + digit_val(s.last())
    }
}

/// The millisecond value of the fractional-seconds digit string `f`: its
/// first three digits, with missing places read as zero.
pub open spec fn frac_ms(f: Seq<char>) -> int {
    100 * (if f.len() >= 1 {
        digit_val(f[0])
    } else {
        0
    }) + 10 * (if f.len() >= 2 {
        digit_val(f[1])
    } else {
        0
    }) + (if f.len() >= 3 {
        digit_val(f[2])
    } else {
        0
    })
}

/// Whether `s` is a plain decimal seconds value: digits with at most one
/// decimal point, and at least one digit overall.
pub open spec fn valid_duration(s: Seq<char>) -> bool {
    match s.index_of_first('.') {
        Option::None => s.len() > 0 && all_digits(s),
        Option::Some(k) => s.len() > 1 && all_digits(s.subrange(0, k)) && all_digits(
            s.subrange(k + 1, s.len() as int),
        ),
    }
}

/// The value of the decimal seconds string `s` in milliseconds; fractional
/// digits beyond the third are ignored.
pub open spec fn duration_ms_value(s: Seq<char>) -> int {
    match s.index_of_first('.') {
        Option::None => dec_value(s) * 1000,
        Option::Some(k) => dec_value(s.subrange(0, k)) * 1000 + frac_ms(
            s.subrange(k + 1, s.len() as int),
        ),
    }
}

proof fn lemma_dec_value_nonneg(s: Seq<char>)
    requires
        all_digits(s),
    ensures
        dec_value(s) >= 0,
    decreases s.len(),
{
    if s.len() > 0 {
        assert(all_digits(s.drop_last()));
        lemma_dec_value_nonneg(s.drop_last());
    }
}

proof fn lemma_dec_value_prefix(s: Seq<char>, i: int)
    requires
        all_digits(s),
        0 <= i <= s.len(),
    ensures
        dec_value(s.subrange(0, i)) <= dec_value(s),
    decreases s.len() - i,
{
    if i == s.len() {
        assert(s.subrange(0, i) =~= s);
    } else {
        let t = s.drop_last();
        assert(all_digits(t));
        assert(s.subrange(0, i) =~= t.subrange(0, i));
        lemma_dec_value_prefix(t, i);
        lemma_dec_value_nonneg(t);
    }
}

/// Parses the digit range `from..to` of `s`; `None` when a non-digit occurs
/// there or the value does not fit in a `u64`.
fn parse_digit_range(s: &str, from: usize, to: usize) -> (r: Option<u64>)
    requires
        from <= to <= s@.len(),
    ensures
        match r {
            Option::Some(v) => all_digits(s@.subrange(from as int, to as int)) && v == dec_value(
                s@.subrange(from as int, to as int),
            ),
            Option::None => !all_digits(s@.subrange(from as int, to as int)) || dec_value(
                s@.subrange(from as int, to as int),
            ) > u64::MAX,
        },
{
    let ghost whole = s@.subrange(from as int, to as int);
    let mut acc: u64 = 0;
    let mut i: usize = from;
    while i < to
        invariant
            from <= i <= to <= s@.len(),
            whole == s@.subrange(from as int, to as int),
            all_digits(s@.subrange(from as int, i as int)),
            acc == dec_value(s@.subrange(from as int, i as int)),
        decreases to - i,
    {
        let c = s.get_char(i);
        let code: u32 = c as u32;
        if code < 48 || code > 57 {
            proof {
                assert(whole[i - from] == s@[i as int]);
                assert(!is_digit(whole[i - from]));
            }
            return None;
        }
        let d: u64 = (code - 48) as u64;
        proof {
            let prev = s@.subrange(from as int, i as int);
            let cur = s@.subrange(from as int, i as int + 1);
            assert(cur.drop_last() =~= prev);
            assert(cur.last() == s@[i as int]);
            assert forall|j: int| 0 <= j < cur.len() implies is_digit(#[trigger] cur[j]) by {
                if j < prev.len() {
                    assert(cur[j] == prev[j]);
                } else {
                    assert(cur[j] == s@[i as int]);
                }
            }
        }
        let step = match acc.checked_mul(10) {
            Some(m) => m.checked_add(d),
            None => None,
        };
        match step {
            Some(next) => {
                acc = next;
            },
            None => {
                proof {
                    let cur = s@.subrange(from as int, i as int + 1);
                    assert(acc * 10 + d > u64::MAX);
                    assert(dec_value(cur) == acc * 10 + d);
                    if all_digits(whole) {
                        assert(cur =~= whole.subrange(0, i as int + 1 - from));
                        lemma_dec_value_prefix(whole, i as int + 1 - from);
                    }
                }
                return None;
            },
        }
        i += 1;
    }
    proof {
        assert(s@.subrange(from as int, i as int) =~= whole);
    }
    Some(acc)
}

/// Parses a plain decimal seconds string into whole milliseconds, truncating
/// fractional digits beyond the third. Returns `None` exactly when the string
/// is not a valid duration or its millisecond value does not fit in a `u64`.
pub fn parse_duration_ms(s: &str) -> (r: Option<u64>)
    ensures
        match r {
            Option::Some(v) => valid_duration(s@) && v == duration_ms_value(s@),
            Option::None => !valid_duration(s@) || duration_ms_value(s@) > u64::MAX,
        },
{
    let n: usize = s.unicode_len();
    let mut k: usize = 0;
    let mut found = false;
    while !found && k < n
        invariant
            k <= n,
            n == s@.len(),
            forall|j: int| 0 <= j < k ==> s@[j] != '.',
            found ==> k < n && s@[k as int] == '.',
        decreases n - k + (if found {
            0int
        } else {
            1int
        }),
    {
        if s.get_char(k) == '.' {
            found = true;
        } else {
            k += 1;
        }
    }
    proof {
        s@.index_of_first_ensures('.');
        if found {
            assert(s@.contains('.'));
            match s@.index_of_first('.') {
                Option::Some(idx) => {
                    assert(s@[idx] == '.');
                    assert(idx == k as int);
                },
                Option::None => {
                    assert(false);
                },
            }
        } else {
            if s@.contains('.') {
                let w = choose|j: int| 0 <= j < s@.len() && s@[j] == '.';
                assert(s@[w] == '.');
            }
        }
    }
    if !found {
        if n == 0 {
            return None;
        }
        match parse_digit_range(s, 0, n) {
            Some(v) => {
                proof {
                    assert(s@.subrange(0, n as int) =~= s@);
                }
                match v.checked_mul(1000) {
                    Some(total) => Some(total),
                    None => None,
                }
            },
            None => {
                proof {
                    assert(s@.subrange(0, n as int) =~= s@);
                    if all_digits(s@) {
                        lemma_dec_value_nonneg(s@);
                    }
                }
                None
            },
        }
    } else {
        let ghost ip = s@.subrange(0, k as int);
        let ghost fp = s@.subrange(k as int + 1, n as int);
        if n == 1 {
            return None;
        }
        // Fractional part: every character must be a digit; the first three
        // carry the millisecond value.
        let mut fm: u64 = 0;
        let mut i: usize = k + 1;
        while i < n
            invariant
                k < i <= n,
                n == s@.len(),
                k < n,
                ip == s@.subrange(0, k as int),
                fp == s@.subrange(k as int + 1, n as int),
                s@.index_of_first('.') == Option::Some(k as int),
                all_digits(s@.subrange(k as int + 1, i as int)),
                fm == 100 * (if i - k - 1 >= 1 {
                    digit_val(fp[0])
                } else {
                    0
                }) + 10 * (if i - k - 1 >= 2 {
                    digit_val(fp[1])
                } else {
                    0
                }) + (if i - k - 1 >= 3 {
                    digit_val(fp[2])
                } else {
                    0
                }),
                fm <= 999,
            decreases n - i,
        {
            let c = s.get_char(i);
            let code: u32 = c as u32;
            if code < 48 || code > 57 {
                proof {
                    assert(fp[i - k - 1] == s@[i as int]);
                    assert(!all_digits(fp));
                }
                return None;
            }
            let p: usize = i - k - 1;
            if p == 0 {
                fm = 100 * ((code - 48) as u64);
            } else if p == 1 {
                fm = fm + 10 * ((code - 48) as u64);
            } else if p == 2 {
                fm = fm + ((code - 48) as u64);
            }
            proof {
                let prev = s@.subrange(k as int + 1, i as int);
                let cur = s@.subrange(k as int + 1, i as int + 1);
                assert(cur =~= prev.push(s@[i as int]));
                assert forall|j: int| 0 <= j < cur.len() implies is_digit(#[trigger] cur[j]) by {
                    if j < prev.len() {
                        assert(cur[j] == prev[j]);
                    } else {
                        assert(cur[j] == s@[i as int]);
                    }
                }
                assert(fp[p as int] == s@[i as int]);
            }
            i += 1;
        }
        proof {
            assert(s@.subrange(k as int + 1, i as int) =~= fp);
            assert(fm == frac_ms(fp));
        }
        match parse_digit_range(s, 0, k) {
            Some(v) => {
                match v.checked_mul(1000) {
                    Some(m) => {
                        match m.checked_add(fm) {
                            Some(total) => Some(total),
                            None => None,
                        }
                    },
                    None => {
                        proof {
                            lemma_dec_value_nonneg(ip);
                        }
                        None
                    },
                }
            },
            None => {
                proof {
                    if all_digits(ip) {
                        lemma_dec_value_nonneg(ip);
                    }
                }
                None
            },
        }
    }
}

/// The playlist rendering of `ms` milliseconds as seconds with six
/// fractional digits.
pub open spec fn fmt_ms(ms: nat) -> Seq<char> {
    dec_rep(ms / 1000) + "."@ + seq![
        digit_char(((ms % 1000) / 100) as int),
        digit_char((((ms % 1000) / 10) % 10) as int),
        digit_char(((ms % 1000) % 10) as int),
    ] + "000"@
}

/// Appends the rendering of `ms` milliseconds as decimal seconds with six
/// fractional digits.
pub fn push_duration(s: &mut String, ms: u64)
    ensures
        final(s)@ == old(s)@ + fmt_ms(ms as nat),
{
    push_dec(s, ms / 1000);
    s.append(".");
    let f = ms % 1000;
    s.append(digit_str(f / 100));
    s.append(digit_str((f / 10) % 10));
    s.append(digit_str(f % 10));
    s.append("000");
    proof {
        assert(final(s)@ =~= old(s)@ + fmt_ms(ms as nat));
    }
}

} // verus!
