//! Tempo input: parsing tempo text into milli-BPM.
//!
//! A tempo literal is a plain decimal number: one or more ASCII digits,
//! optionally followed by a dot and one or more ASCII digits (`"120"`,
//! `"120.25"`).  Its value is kept in thousandths of a BPM, so fraction
//! digits beyond the third are beyond resolution and are truncated.
//! Malformed text, and values outside the accepted tempo range of 1 to 300
//! BPM, parse to `None`: the engine leaves the tempo unchanged for them.

use vstd::prelude::*;

verus! {

/// Smallest accepted tempo, in milli-BPM: 1 BPM.
pub const TEMPO_MIN_MBPM: u32 = 1000;

/// Largest accepted tempo, in milli-BPM: 300 BPM.
pub const TEMPO_MAX_MBPM: u32 = 300000;

/// ASCII `'0'` (48) through `'9'` (57).
pub open spec fn is_ascii_digit(b: u8) -> bool {
    48 <= b && b <= 57
}

pub open spec fn all_ascii_digits(s: Seq<u8>) -> bool {
    forall|i: int| 0 <= i < s.len() ==> is_ascii_digit(#[trigger] s[i])
}

/// The number a run of ASCII digits denotes, most significant digit first.
pub open spec fn digits_value(s: Seq<u8>) -> int
    decreases s.len(),
{
    if s.len() == 0 {
        0
    } else {
        digits_value(s.drop_last()) * 10 + (s.last() - 48)
    }
}

/// `i` splits `s` as a tempo literal: a non-empty digit run `s[..i]`, then
/// either the end of the text or a dot followed by a non-empty digit run.
pub open spec fn is_tempo_split(s: Seq<u8>, i: int) -> bool {
    &&& 1 <= i <= s.len()
    &&& all_ascii_digits(s.take(i))
    &&& (i == s.len() || (s[i] == 46 && i + 1 < s.len() && all_ascii_digits(s.skip(
        i + 1,
    ))))  // 46 is ASCII '.'
}

/// Whether `s` is a well-formed tempo literal.
pub open spec fn tempo_text_valid(s: Seq<u8>) -> bool {
    exists|i: int| is_tempo_split(s, i)
}

/// The position of the literal's dot (or of its end): the split is unique.
pub open spec fn tempo_split(s: Seq<u8>) -> int {
    choose|i: int| is_tempo_split(s, i)
}

/// The milli-BPM weight of the `k`-th kept fraction digit's position, i.e.
/// what a digit run of length `k` is scaled by: three decimal places fill
/// one thousandth-unit.
pub open spec fn frac_scale(k: int) -> int {
    if k <= 0 {
        1000
    } else if k == 1 {
        100
    } else if k == 2 {
        10
    } else {
        1
    }
}

/// The value of a well-formed tempo literal, in milli-BPM: the whole part in
/// thousandths plus the first three fraction digits at their decimal weight.
pub open spec fn tempo_text_mbpm(s: Seq<u8>) -> int {
    let i = tempo_split(s);
    let frac = if i == s.len() {
        Seq::<u8>::empty()
    } else {
        s.skip(i + 1)
    };
    let frac3 = frac.take(
        if frac.len() <= 3 {
            frac.len() as int
        } else {
            3
        },
    );
    digits_value(s.take(i)) * 1000 + digits_value(frac3) * frac_scale(frac3.len() as int)
}

/// What parsing tempo text yields: the literal's milli-BPM value exactly for
/// well-formed text in the accepted range, `None` for everything else.
pub open spec fn parse_tempo_spec(s: Seq<u8>) -> Option<u32> {
    if tempo_text_valid(s) && TEMPO_MIN_MBPM <= tempo_text_mbpm(s) && tempo_text_mbpm(s)
        <= TEMPO_MAX_MBPM {
        Some(tempo_text_mbpm(s) as u32)
    } else {
        None
    }
}

proof fn lemma_tempo_split_unique(s: Seq<u8>, i1: int, i2: int)
    requires
        is_tempo_split(s, i1),
        is_tempo_split(s, i2),
    ensures
        i1 == i2,
{
    if i1 < i2 {
        assert(is_ascii_digit(s.take(i2)[i1]));
        assert(s[i1] == 46);
    }
    if i2 < i1 {
        assert(is_ascii_digit(s.take(i1)[i2]));
        assert(s[i2] == 46);
    }
}

/// A witness split determines the split: `tempo_split` is a function of the
/// text alone.
proof fn lemma_tempo_split_is(s: Seq<u8>, i: int)
    requires
        is_tempo_split(s, i),
    ensures
        tempo_text_valid(s),
        tempo_split(s) == i,
{
    assert(tempo_text_valid(s));
    assert(is_tempo_split(s, tempo_split(s)));
    lemma_tempo_split_unique(s, tempo_split(s), i);
}

/// Parse tempo text into milli-BPM.  Returns `Some` exactly for a plain
/// decimal literal (digits, optionally a dot and more digits) denoting 1 to
/// 300 BPM; fraction digits beyond the third are truncated.
pub fn parse_tempo_mbpm(text: &[u8]) -> (r: Option<u32>)
    ensures
        r == parse_tempo_spec(text@),
{
    let n = text.len();
    // Whole part.  `whole` tracks the digits' value, saturated at 301: every
    // saturated value is out of tempo range anyway.
    let mut j: usize = 0;
    let mut whole: u32 = 0;
    while j < n && 48 <= text[j] && text[j] <= 57
        invariant
            j <= n,
            n == text@.len(),
            all_ascii_digits(text@.take(j as int)),
            whole <= 301,
            digits_value(text@.take(j as int)) <= 300 ==> whole == digits_value(
                text@.take(j as int),
            ),
            digits_value(text@.take(j as int)) > 300 ==> whole == 301,
        decreases n - j,
    {
        let d: u32 = (text[j] - 48) as u32;
        proof {
            assert(text@.take(j as int + 1).drop_last() =~= text@.take(j as int));
            assert(text@.take(j as int + 1).last() == text@[j as int]);
            assert forall|i: int| 0 <= i < j as int + 1 implies is_ascii_digit(
                #[trigger] text@.take(j as int + 1)[i],
            ) by {
                assert(text@.take(j as int + 1)[i] == text@[i]);
                if i < j as int {
                    assert(text@.take(j as int)[i] == text@[i]);
                }
            }
        }
        if whole > 300 || whole * 10 + d > 300 {
            whole = 301;
        } else {
            whole = whole * 10 + d;
        }
        j = j + 1;
    }
    if j == 0 {
        // Empty text, or it does not start with a digit: no split exists.
        proof {
            assert forall|i: int| !is_tempo_split(text@, i) by {
                if is_tempo_split(text@, i) {
                    assert(is_ascii_digit(text@.take(i)[0]));
                }
            }
        }
        return None;
    }
    if j == n {
        // Digits only: the split is at the end of the text.
        proof {
            lemma_tempo_split_is(text@, n as int);
        }
        if 1 <= whole && whole <= 300 {
            return Some(whole * 1000);
        } else {
            return None;
        }
    }
    if text[j] != 46 {
        // A byte that is neither a digit nor the one permitted dot.
        proof {
            assert forall|i: int| !is_tempo_split(text@, i) by {
                if is_tempo_split(text@, i) {
                    if i < j {
                        assert(is_ascii_digit(text@.take(j as int)[i]));
                    }
                    if i > j {
                        assert(is_ascii_digit(text@.take(i)[j as int]));
                    }
                }
            }
        }
        return None;
    }
    if j + 1 == n {
        // A dot with no fraction digits after it.
        proof {
            assert forall|i: int| !is_tempo_split(text@, i) by {
                if is_tempo_split(text@, i) {
                    if i < j {
                        assert(is_ascii_digit(text@.take(j as int)[i]));
                        assert(text@[i] == 46);
                    }
                    if i > j {
                        assert(is_ascii_digit(text@.take(i)[j as int]));
                    }
                }
            }
        }
        return None;
    }
    // Fraction part: keep the first three digits at their decimal weight.
    let mut m: usize = j + 1;
    let mut cnt: usize = 0;
    let mut fv: u32 = 0;
    while m < n && cnt < 3 && 48 <= text[m] && text[m] <= 57
        invariant
            j + 1 <= m <= n,
            n == text@.len(),
            m == j + 1 + cnt,
            cnt <= 3,
            all_ascii_digits(text@.subrange(j as int + 1, m as int)),
            fv == digits_value(text@.subrange(j as int + 1, m as int)),
            cnt == 0 ==> fv == 0,
            cnt <= 1 ==> fv <= 9,
            cnt <= 2 ==> fv <= 99,
            fv <= 999,
        decreases n - m,
    {
        let d: u32 = (text[m] - 48) as u32;
        proof {
            assert(text@.subrange(j as int + 1, m as int + 1).drop_last() =~= text@.subrange(
                j as int + 1,
                m as int,
            ));
            assert(text@.subrange(j as int + 1, m as int + 1).last() == text@[m as int]);
            assert forall|i: int| 0 <= i < m as int + 1 - (j as int + 1) implies is_ascii_digit(
                #[trigger] text@.subrange(j as int + 1, m as int + 1)[i],
            ) by {
                assert(text@.subrange(j as int + 1, m as int + 1)[i] == text@[j as int + 1 + i]);
                if i < m as int - (j as int + 1) {
                    assert(text@.subrange(j as int + 1, m as int)[i] == text@[j as int + 1 + i]);
                }
            }
        }
        fv = fv * 10 + d;
        cnt = cnt + 1;
        m = m + 1;
    }
    // Any remaining bytes may only be further fraction digits (truncated).
    let ghost frac3 = text@.subrange(j as int + 1, j as int + 1 + cnt as int);
    let ghost stop_m = m as int;
    proof {
        assert(stop_m == j as int + 1 + cnt as int);
        assert(cnt == 3 || stop_m == n as int || !is_ascii_digit(text@[stop_m]));
    }
    while m < n
        invariant
            1 <= j,
            j + 1 < n,
            j + 1 <= m <= n,
            n == text@.len(),
            text@[j as int] == 46,
            all_ascii_digits(text@.take(j as int)),
            all_ascii_digits(text@.subrange(j as int + 1, m as int)),
        decreases n - m,
    {
        if text[m] < 48 || 57 < text[m] {
            // A non-digit inside the fraction: no split exists.
            proof {
                assert forall|i: int| !is_tempo_split(text@, i) by {
                    if is_tempo_split(text@, i) {
                        if i < j {
                            assert(is_ascii_digit(text@.take(j as int)[i]));
                            assert(text@[i] == 46);
                        }
                        if i > j {
                            assert(is_ascii_digit(text@.take(i)[j as int]));
                        }
                        assert(i == j);
                        assert(is_ascii_digit(text@.skip(j as int + 1)[m - j - 1]));
                    }
                }
            }
            return None;
        }
        proof {
            assert forall|i: int| 0 <= i < m as int + 1 - (j as int + 1) implies is_ascii_digit(
                #[trigger] text@.subrange(j as int + 1, m as int + 1)[i],
            ) by {
                assert(text@.subrange(j as int + 1, m as int + 1)[i] == text@[j as int + 1 + i]);
                if i < m as int - (j as int + 1) {
                    assert(text@.subrange(j as int + 1, m as int)[i] == text@[j as int + 1 + i]);
                }
            }
        }
        m = m + 1;
    }
    // Well-formed: the split is at the dot.
    proof {
        assert(text@.skip(j as int + 1) =~= text@.subrange(j as int + 1, n as int));
        lemma_tempo_split_is(text@, j as int);
        if cnt != 3 && stop_m != n as int {
            assert(is_ascii_digit(text@.subrange(j as int + 1, n as int)[stop_m - (j as int + 1)]));
            assert(false);
        }
        assert(frac3 =~= text@.skip(j as int + 1).take(
            if text@.skip(j as int + 1).len() <= 3 {
                text@.skip(j as int + 1).len() as int
            } else {
                3
            },
        ));
    }
    let scale: u32 = if cnt == 1 {
        100
    } else if cnt == 2 {
        10
    } else {
        1
    };
    if whole > 300 {
        // The whole part alone already exceeds the tempo range.
        return None;
    }
    let total: u32 = whole * 1000 + fv * scale;
    if 1000 <= total && total <= 300000 {
        Some(total)
    } else {
        None
    }
}

} // verus!
