//! Small verified text utilities shared by the stores and the editor:
//! content comparison, whitespace trimming, comma-separated list splitting,
//! and integer parsing.

use vstd::prelude::*;
use vstd::string::StrSliceExecFns;

verus! {

/// Compares two string slices by content.
pub fn str_equal(a: &str, b: &str) -> (r: bool)
    ensures
        r == (a@ == b@),
{
    let sa = a.to_owned();
    let sb = b.to_owned();
    sa == sb
}

/// The Unicode white-space characters, the set `str::trim` strips.
pub open spec fn is_space(c: char) -> bool {
    ||| c == ' '
    ||| c == '\t'
    ||| c == '\n'
    ||| c == '\r'
    ||| c == '\u{b}'
    ||| c == '\u{c}'
    ||| c == '\u{85}'
    ||| c == '\u{a0}'
    ||| c == '\u{1680}'
    ||| ('\u{2000}' <= c && c <= '\u{200a}')
    ||| c == '\u{2028}'
    ||| c == '\u{2029}'
    ||| c == '\u{202f}'
    ||| c == '\u{205f}'
    ||| c == '\u{3000}'
}

fn is_space_char(c: char) -> (b: bool)
    ensures
        b == is_space(c),
{
    c == ' ' || c == '\t' || c == '\n' || c == '\r' || c == '\u{b}' || c == '\u{c}'
        || c == '\u{85}' || c == '\u{a0}' || c == '\u{1680}' || ('\u{2000}' <= c && c
        <= '\u{200a}') || c == '\u{2028}' || c == '\u{2029}' || c == '\u{202f}' || c == '\u{205f}'
        || c == '\u{3000}'
}

/// The sequence with its leading white space removed.
pub open spec fn drop_leading_spaces(s: Seq<char>) -> Seq<char>
    decreases s.len(),
{
    if s.len() > 0 && is_space(s[0]) {
        drop_leading_spaces(s.drop_first())
    } else {
        s
    }
}

/// The sequence with its trailing white space removed.
pub open spec fn drop_trailing_spaces(s: Seq<char>) -> Seq<char>
    decreases s.len(),
{
    if s.len() > 0 && is_space(s.last()) {
        drop_trailing_spaces(s.drop_last())
    } else {
        s
    }
}

/// The sequence with surrounding white space removed.
pub open spec fn trim_spec(s: Seq<char>) -> Seq<char> {
    drop_trailing_spaces(drop_leading_spaces(s))
}

/// A prefix of spaces ending at the first non-space drops away whole.
proof fn lemma_drop_leading(s: Seq<char>, k: int)
    requires
        0 <= k <= s.len(),
        forall|j: int| 0 <= j < k ==> is_space(#[trigger] s[j]),
        k < s.len() ==> !is_space(s[k]),
    ensures
        drop_leading_spaces(s) == s.skip(k),
    decreases k,
{
    if k == 0 {
        assert(s.skip(0) =~= s);
    } else {
        assert(is_space(s[0]));
        lemma_drop_leading_step(s);
        lemma_drop_leading(s.drop_first(), k - 1);
        assert(s.drop_first().skip(k - 1) =~= s.skip(k));
    }
}

proof fn lemma_drop_leading_step(s: Seq<char>)
    requires
        s.len() > 0,
        is_space(s[0]),
    ensures
        drop_leading_spaces(s) == drop_leading_spaces(s.drop_first()),
{
}

/// A suffix of spaces starting after the last non-space drops away whole.
proof fn lemma_drop_trailing(s: Seq<char>, k: int)
    requires
        0 <= k <= s.len(),
        forall|j: int| k <= j < s.len() ==> is_space(#[trigger] s[j]),
        k > 0 ==> !is_space(s[k - 1]),
    ensures
        drop_trailing_spaces(s) == s.take(k),
    decreases s.len() - k,
{
    if k == s.len() {
        assert(s.take(k) =~= s);
        if s.len() > 0 {
            assert(!is_space(s.last()));
        }
    } else {
        assert(is_space(s.last()));
        lemma_drop_trailing(s.drop_last(), k);
        assert(s.drop_last().take(k) =~= s.take(k));
    }
}

/// Removes surrounding white space, as the editor does to every free-text
/// field.
#[verifier::loop_isolation(false)]
pub fn trim_str(s: &str) -> (r: String)
    ensures
        r@ == trim_spec(s@),
{
    let n = s.unicode_len();
    let mut start: usize = 0;
    while start < n && is_space_char(s.get_char(start))
        invariant
            0 <= start <= n,
            forall|j: int| 0 <= j < start ==> is_space(#[trigger] s@[j]),
        decreases n - start,
    {
        start += 1;
    }
    let mut end: usize = n;
    while end > start && is_space_char(s.get_char(end - 1))
        invariant
            start <= end <= n,
            forall|j: int| end <= j < n ==> is_space(#[trigger] s@[j]),
        decreases end,
    {
        end -= 1;
    }
    let sub = s.substring_char(start, end);
    let r = sub.to_owned();
    proof {
        lemma_drop_leading(s@, start as int);
        let t = s@.skip(start as int);
        lemma_drop_trailing(t, end - start as int);
        assert forall|j: int| (end - start as int) <= j < t.len() implies is_space(
            #[trigger] t[j],
        ) by {
            assert(t[j] == s@[start + j]);
        }
        assert(t.take(end - start as int) =~= s@.subrange(start as int, end as int));
    }
    r
}

/// The position of the first comma, if any.
pub open spec fn first_comma(s: Seq<char>) -> Option<int>
    decreases s.len(),
{
    if s.len() == 0 {
        None
    } else if s[0] == ',' {
        Some(0)
    } else {
        match first_comma(s.drop_first()) {
            Some(i) => Some(i + 1),
            None => None,
        }
    }
}

/// A comma-free prefix places the first comma exactly.
proof fn lemma_first_comma(s: Seq<char>, k: int)
    requires
        0 <= k <= s.len(),
        forall|j: int| 0 <= j < k ==> #[trigger] s[j] != ',',
    ensures
        k < s.len() && s[k] == ',' ==> first_comma(s) == Some(k),
        k == s.len() ==> first_comma(s) == None::<int>,
    decreases k,
{
    if k == 0 {
    } else {
        assert(s[0] != ',');
        lemma_first_comma(s.drop_first(), k - 1);
        assert(k - 1 < s.drop_first().len() ==> s.drop_first()[k - 1] == s[k]);
    }
}

/// The first comma, when there is one, lies inside the sequence.
proof fn lemma_first_comma_range(s: Seq<char>)
    ensures
        match first_comma(s) {
            Some(i) => 0 <= i < s.len() && s[i] == ',',
            None => forall|j: int| 0 <= j < s.len() ==> #[trigger] s[j] != ',',
        },
    decreases s.len(),
{
    if s.len() > 0 && s[0] != ',' {
        lemma_first_comma_range(s.drop_first());
        match first_comma(s.drop_first()) {
            Some(i) => {
                assert(s.drop_first()[i] == s[i + 1]);
            },
            None => {
                assert forall|j: int| 0 <= j < s.len() implies #[trigger] s[j] != ',' by {
                    if j > 0 {
                        assert(s.drop_first()[j - 1] == s[j]);
                    }
                }
            },
        }
    }
}

/// The comma-separated pieces of `s`, each trimmed. Splitting an empty
/// sequence yields one empty piece, never an empty list.
pub open spec fn split_trim(s: Seq<char>) -> Seq<Seq<char>>
    decreases s.len(),
    via split_trim_decreases
{
    match first_comma(s) {
        None => seq![trim_spec(s)],
        Some(i) => seq![trim_spec(s.take(i))] + split_trim(s.skip(i + 1)),
    }
}

#[via_fn]
proof fn split_trim_decreases(s: Seq<char>) {
    lemma_first_comma_range(s);
}

/// Splits on commas and trims each piece, as the editor does to tag and
/// category lists. An input with no comma — the empty string included —
/// yields exactly one piece.
#[verifier::loop_isolation(false)]
#[verifier::rlimit(80)]
pub fn split_and_trim(s: &str) -> (r: Vec<String>)
    ensures
        r.deep_view() == split_trim(s@),
{
    let n = s.unicode_len();
    let mut r: Vec<String> = Vec::new();
    let mut start: usize = 0;
    let mut i: usize = 0;
    proof {
        assert(s@.skip(0) =~= s@);
        assert(r.deep_view() =~= Seq::<Seq<char>>::empty());
        assert(Seq::<Seq<char>>::empty() + split_trim(s@) =~= split_trim(s@));
    }
    while i < n
        invariant
            0 <= start <= i <= n,
            forall|j: int| start <= j < i ==> #[trigger] s@[j] != ',',
            split_trim(s@) =~= r.deep_view() + split_trim(s@.skip(start as int)),
        decreases n - i,
    {
        if s.get_char(i) == ',' {
            let ghost t = s@.skip(start as int);
            proof {
                assert forall|j: int| 0 <= j < i - start as int implies #[trigger] t[j] != ',' by {
                    assert(t[j] == s@[start + j]);
                }
                lemma_first_comma(t, i - start as int);
                assert(t[i - start as int] == s@[i as int]);
                assert(t.take(i - start as int) =~= s@.subrange(start as int, i as int));
            }
            let piece = s.substring_char(start, i);
            let t2 = trim_str(piece);
            let ghost r_old = r;
            let ghost tg = t2;
            r.push(t2);
            proof {
                assert(r.deep_view() =~= r_old.deep_view().push(tg@)) by {
                    assert forall|k: int|
                        0 <= k < r@.len() implies r.deep_view()[k] == r_old.deep_view().push(
                        tg@,
                    )[k] by {
                        if k < r_old@.len() {
                            assert(r@[k] == r_old@[k]);
                        } else {
                            assert(r@[k] == tg);
                        }
                    }
                }
                assert(t.skip(i - start as int + 1) =~= s@.skip(i + 1));
                assert(split_trim(s@) =~= (r_old.deep_view() + (seq![trim_spec(
                    s@.subrange(start as int, i as int),
                )] + split_trim(s@.skip(i + 1)))));
                assert(split_trim(s@) =~= r.deep_view() + split_trim(s@.skip(i + 1)));
            }
            start = i + 1;
        }
        i += 1;
    }
    let ghost t = s@.skip(start as int);
    proof {
        assert forall|j: int| 0 <= j < t.len() implies #[trigger] t[j] != ',' by {
            assert(t[j] == s@[start + j]);
        }
        lemma_first_comma(t, t.len() as int);
        assert(t.take(t.len() as int) =~= t);
        assert(t =~= s@.subrange(start as int, n as int));
    }
    let piece = s.substring_char(start, n);
    let t2 = trim_str(piece);
    let ghost r_old = r;
    let ghost tg = t2;
    r.push(t2);
    proof {
        assert(r.deep_view() =~= r_old.deep_view().push(tg@)) by {
            assert forall|k: int|
                0 <= k < r@.len() implies r.deep_view()[k] == r_old.deep_view().push(tg@)[k] by {
                if k < r_old@.len() {
                    assert(r@[k] == r_old@[k]);
                } else {
                    assert(r@[k] == tg);
                }
            }
        }
        assert(trim_spec(t) == tg@);
        assert(split_trim(t) =~= seq![tg@]);
        assert(r.deep_view() =~= r_old.deep_view() + split_trim(t));
        assert(r.deep_view() =~= split_trim(s@));
    }
    r
}

pub open spec fn is_digit(c: char) -> bool {
    '0' <= c && c <= '9'
}

pub open spec fn digit_val(c: char) -> int {
    c as int - '0' as int
}

pub open spec fn all_digits(s: Seq<char>) -> bool {
    forall|i: int| 0 <= i < s.len() ==> is_digit(#[trigger] s[i])
}

/// The base-ten value of a digit sequence.
pub open spec fn digits_value(s: Seq<char>) -> int
    decreases s.len(),
{
    if s.len() == 0 {
        0
    } else {
        digits_value(s.drop_last()) * 10 + digit_val(s.last())
    }
}

proof fn lemma_digits_value_nonneg(s: Seq<char>)
    requires
        all_digits(s),
    ensures
        digits_value(s) >= 0,
    decreases s.len(),
{
    if s.len() > 0 {
        assert(all_digits(s.drop_last())) by {
            assert(forall|i: int|
                0 <= i < s.drop_last().len() ==> #[trigger] s.drop_last()[i] == s[i]);
        }
        lemma_digits_value_nonneg(s.drop_last());
        assert(is_digit(s.last()));
    }
}

/// Appending digits never shrinks the value.
proof fn lemma_digits_value_grows(s: Seq<char>, k: int)
    requires
        all_digits(s),
        0 <= k <= s.len(),
    ensures
        digits_value(s) >= digits_value(s.take(k)),
    decreases s.len() - k,
{
    if k == s.len() {
        assert(s.take(k) =~= s);
    } else {
        lemma_digits_value_grows(s, k + 1);
        assert(s.take(k + 1).drop_last() =~= s.take(k));
        assert(is_digit(s.take(k + 1).last()));
        assert(all_digits(s.take(k))) by {
            assert(forall|i: int| 0 <= i < k ==> #[trigger] s.take(k)[i] == s[i]);
        }
        lemma_digits_value_nonneg(s.take(k));
        assert(digits_value(s.take(k + 1)) == digits_value(s.take(k)) * 10 + digit_val(
            s.take(k + 1).last(),
        ));
    }
}

/// What `str::parse::<u8>` accepts: an optional leading plus sign, then one
/// or more decimal digits whose value fits in eight bits.
pub open spec fn parse_u8_spec(s: Seq<char>) -> Option<u8> {
    let t = if s.len() > 0 && s[0] == '+' {
        s.drop_first()
    } else {
        s
    };
    if t.len() == 0 || !all_digits(t) {
        None
    } else if digits_value(t) > 255 {
        None
    } else {
        Some(digits_value(t) as u8)
    }
}

/// Parses an unsigned byte as `str::parse::<u8>` does: an optional leading
/// plus sign, then decimal digits; anything else, or a value over 255,
/// parses to nothing.
#[verifier::loop_isolation(false)]
pub fn parse_u8(s: &str) -> (r: Option<u8>)
    ensures
        r == parse_u8_spec(s@),
{
    let n = s.unicode_len();
    let mut i: usize = 0;
    if n > 0 && s.get_char(0) == '+' {
        i = 1;
    }
    let ghost base = i as int;
    let ghost t = s@.skip(base);
    proof {
        assert(t =~= if s@.len() > 0 && s@[0] == '+' {
            s@.drop_first()
        } else {
            s@
        });
    }
    if i == n {
        return None;
    }
    let mut acc: u32 = 0;
    let mut over: bool = false;
    while i < n
        invariant
            base <= i <= n,
            t == s@.skip(base),
            t.len() == n - base,
            all_digits(t.take(i - base)),
            !over ==> acc <= 255 && acc as int == digits_value(t.take(i - base)),
            over ==> digits_value(t.take(i - base)) > 255,
        decreases n - i,
    {
        let c = s.get_char(i);
        proof {
            assert(t[i - base] == s@[i as int]);
        }
        if c < '0' || c > '9' {
            proof {
                assert(!is_digit(t[i - base]));
                assert(!all_digits(t));
            }
            return None;
        }
        let d: u32 = c as u32 - 48;
        proof {
            assert(is_digit(t[i - base]));
            assert(t.take(i - base + 1).drop_last() =~= t.take(i - base));
            assert(t.take(i - base + 1).last() == t[i - base]);
            assert(all_digits(t.take(i - base + 1))) by {
                assert(forall|j: int|
                    0 <= j < i - base + 1 ==> #[trigger] t.take(i - base + 1)[j] == t[j]);
            }
        }
        if over {
            proof {
                lemma_digits_value_nonneg(t.take(i - base));
                assert(digits_value(t.take(i - base + 1)) > 255);
            }
        } else {
            let next: u32 = acc * 10 + d;
            if next > 255 {
                over = true;
            } else {
                acc = next;
            }
            proof {
                assert(digits_value(t.take(i - base + 1)) == digits_value(t.take(i - base)) * 10
                    + digit_val(t[i - base]));
            }
        }
        i += 1;
    }
    proof {
        assert(t.take(n - base) =~= t);
    }
    if over {
        None
    } else {
        proof {
            assert(digits_value(t) == acc as int);
        }
        Some(acc as u8)
    }
}

} // verus!
