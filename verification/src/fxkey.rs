//! The key format of per-pattern effect metadata: `"t:s"`, where `t` and
//! `s` are non-negative decimal integers naming a track and a step.  Keys
//! that do not fit the format are skipped silently by the caller.

use vstd::arithmetic::div_mod::lemma_fundamental_div_mod;
use vstd::prelude::*;

verus! {

/// A decimal digit, by code point: `'0'` through `'9'`.
pub open spec fn is_digit(c: char) -> bool {
    48 <= c as int && c as int <= 57
}

/// The value of a decimal digit.
pub open spec fn digit_val(c: char) -> int {
    c as int - 48
}

/// A non-empty string of decimal digits.
pub open spec fn all_digits(s: Seq<char>) -> bool {
    &&& s.len() > 0
    &&& forall|i: int| 0 <= i < s.len() ==> is_digit(#[trigger] s[i])
}

/// The number a string of digits denotes, most significant digit first.
pub open spec fn dec_value(s: Seq<char>) -> int
    decreases s.len(),
{
    if s.len() == 0 {
        0
    } else {
        dec_value(s.drop_last()) * 10 + digit_val(s.last())
    }
}

/// A digit string denotes a non-negative number.
pub proof fn lemma_dec_value_nonneg(s: Seq<char>)
    requires
        forall|i: int| 0 <= i < s.len() ==> is_digit(#[trigger] s[i]),
    ensures
        dec_value(s) >= 0,
    decreases s.len(),
{
    if s.len() > 0 {
        lemma_dec_value_nonneg(s.drop_last());
    }
}

/// Extending a digit string to the right never shrinks its value.
pub proof fn lemma_dec_value_prefix(s: Seq<char>, k: int)
    requires
        forall|i: int| 0 <= i < s.len() ==> is_digit(#[trigger] s[i]),
        0 <= k <= s.len(),
    ensures
        dec_value(s.subrange(0, k)) <= dec_value(s),
    decreases s.len() - k,
{
    if k == s.len() {
        assert(s.subrange(0, k) =~= s);
    } else {
        lemma_dec_value_prefix(s, k + 1);
        let p = s.subrange(0, k + 1);
        assert(p.drop_last() =~= s.subrange(0, k));
        lemma_dec_value_nonneg(s.subrange(0, k));
        assert(dec_value(p) == dec_value(s.subrange(0, k)) * 10 + digit_val(p.last()));
    }
}

/// Parse a non-empty, all-digit decimal string whose value fits `usize`;
/// anything else is rejected.
pub fn parse_usize_digits(s: &str) -> (r: Option<usize>)
    ensures
        r is Some <==> all_digits(s@) && dec_value(s@) <= usize::MAX,
        r matches Some(v) ==> v == dec_value(s@),
{
    let n = s.unicode_len();
    if n == 0 {
        return None;
    }
    let mut acc: usize = 0;
    let mut i: usize = 0;
    while i < n
        invariant
            n == s@.len(),
            i <= n,
            forall|j: int| 0 <= j < i ==> is_digit(#[trigger] s@[j]),
            acc == dec_value(s@.subrange(0, i as int)),
        decreases n - i,
    {
        let c = s.get_char(i);
        let cv = c as u32;
        if cv < 48 || cv > 57 {
            return None;
        }
        let d: usize = (cv - 48) as usize;
        proof {
            assert(s@.subrange(0, i + 1).drop_last() =~= s@.subrange(0, i as int));
            assert(s@.subrange(0, i + 1).last() == s@[i as int]);
            assert(d == digit_val(s@[i as int]));
        }
        if acc > (usize::MAX - d) / 10 {
            proof {
                lemma_fundamental_div_mod(usize::MAX as int - d, 10);
                assert(acc as int * 10 + d > usize::MAX);
                assert(dec_value(s@.subrange(0, i + 1)) > usize::MAX);
                if all_digits(s@) {
                    lemma_dec_value_prefix(s@, i + 1);
                }
            }
            return None;
        }
        acc = acc * 10 + d;
        i = i + 1;
    }
    proof {
        assert(s@.subrange(0, n as int) =~= s@);
    }
    Some(acc)
}

/// `p` is the position of the only `':'` in `s`.
pub open spec fn single_colon_at(s: Seq<char>, p: int) -> bool {
    &&& 0 <= p < s.len()
    &&& s[p] == ':'
    &&& forall|q: int| 0 <= q < s.len() && q != p ==> s[q] != ':'
}

/// A well-formed effect key: exactly one `':'`, digits on both sides, both
/// numbers representable as `usize`.
pub open spec fn fx_key_valid(s: Seq<char>) -> bool {
    exists|p: int|
        {
            &&& #[trigger] single_colon_at(s, p)
            &&& all_digits(s.subrange(0, p))
            &&& all_digits(s.subrange(p + 1, s.len() as int))
            &&& dec_value(s.subrange(0, p)) <= usize::MAX
            &&& dec_value(s.subrange(p + 1, s.len() as int)) <= usize::MAX
        }
}

/// The position of the only colon of a well-formed key.
pub open spec fn fx_colon_pos(s: Seq<char>) -> int {
    choose|p: int| single_colon_at(s, p)
}

/// The track number a well-formed key names.
pub open spec fn fx_key_track(s: Seq<char>) -> int {
    dec_value(s.subrange(0, fx_colon_pos(s)))
}

/// The step number a well-formed key names.
pub open spec fn fx_key_step(s: Seq<char>) -> int {
    dec_value(s.subrange(fx_colon_pos(s) + 1, s.len() as int))
}

/// Parse a `"track:step"` key; `None` for any string that is not exactly
/// one well-formed key.
pub fn parse_fx_key(key: &str) -> (r: Option<(usize, usize)>)
    ensures
        r is Some <==> fx_key_valid(key@),
        r matches Some((t, st)) ==> t == fx_key_track(key@) && st == fx_key_step(key@),
{
    let n = key.unicode_len();
    let mut colon: Option<usize> = None;
    let mut i: usize = 0;
    while i < n
        invariant
            n == key@.len(),
            i <= n,
            colon is None ==> forall|q: int| 0 <= q < i ==> key@[q] != ':',
            colon matches Some(p) ==> p < i && key@[p as int] == ':' && forall|q: int|
                0 <= q < i && q != p ==> key@[q] != ':',
        decreases n - i,
    {
        let c = key.get_char(i);
        if c == ':' {
            if let Some(p) = colon {
                proof {
                    assert forall|p2: int| !single_colon_at(key@, p2) by {
                        if p2 == p {
                            assert(key@[i as int] == ':');
                        } else {
                            assert(key@[p as int] == ':');
                        }
                    }
                }
                return None;
            }
            colon = Some(i);
        }
        i = i + 1;
    }
    match colon {
        None => {
            proof {
                assert forall|p2: int| !single_colon_at(key@, p2) by {}
            }
            None
        },
        Some(p) => {
            proof {
                assert(single_colon_at(key@, p as int));
                assert forall|p2: int| single_colon_at(key@, p2) implies p2 == p as int by {
                    if p2 != p {
                        assert(key@[p as int] != ':');
                    }
                }
                assert(exists|q: int| single_colon_at(key@, q));
                assert(single_colon_at(key@, fx_colon_pos(key@)));
                assert(fx_colon_pos(key@) == p as int);
            }
            let left = key.substring_char(0, p);
            let right = key.substring_char(p + 1, n);
            let t = parse_usize_digits(left);
            let st = parse_usize_digits(right);
            match (t, st) {
                (Some(tv), Some(sv)) => Some((tv, sv)),
                _ => None,
            }
        },
    }
}

} // verus!
