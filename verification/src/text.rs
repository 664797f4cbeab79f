use vstd::prelude::*;

use crate::todo_item::{eq_ignore_case, lower_cp};

verus! {

/// Compares two pieces of text without regard to ASCII case.
pub fn eq_ci(a: &str, b: &str) -> (r: bool)
    ensures
        r == eq_ignore_case(a@, b@),
{
    let a_len = a.unicode_len();
    let b_len = b.unicode_len();
    if a_len != b_len {
        return false;
    }
    let mut i: usize = 0;
    while i < a_len
        invariant
            a_len == a@.len(),
            b_len == b@.len(),
            a_len == b_len,
            i <= a_len,
            forall|j: int| 0 <= j < i ==> lower_cp(a@[j] as int) == lower_cp(b@[j] as int),
        decreases a_len - i,
    {
        let ca = a.get_char(i);
        let cb = b.get_char(i);
        let la = lower_char_cp(ca);
        let lb = lower_char_cp(cb);
        if la != lb {
            return false;
        }
        i += 1;
    }
    true
}

/// The ASCII-lowered code point of one character.
fn lower_char_cp(c: char) -> (r: u32)
    ensures
        r as int == lower_cp(c as int),
{
    let n = c as u32;
    if 65 <= n && n <= 90 {
        n + 32
    } else {
        n
    }
}

/// A decimal digit.
pub open spec fn is_dec_digit(c: char) -> bool {
    48 <= c as int <= 57
}

/// The value a decimal digit stands for.
pub open spec fn digit_val(c: char) -> int {
    (c as int) - 48
}

/// The number a run of decimal digits denotes.
pub open spec fn dec_value(s: Seq<char>) -> int
    decreases s.len(),
{
    if s.len() == 0 {
        0
    } else {
        dec_value(s.drop_last()) * 10 + digit_val(s.last())
    }
}

/// The one way an id is written as a key: decimal digits, no leading zero
/// (only zero itself is written with one).
pub open spec fn is_canonical_id(s: Seq<char>) -> bool {
    &&& s.len() > 0
    &&& forall|i: int| 0 <= i < s.len() ==> is_dec_digit(#[trigger] s[i])
    &&& (s[0] == '0' ==> s.len() == 1)
}

/// The id a key string addresses: record keys are the canonical decimal
/// form of their id, so any other text addresses no record.
pub open spec fn id_of_key(s: Seq<char>) -> Option<int> {
    if is_canonical_id(s) && dec_value(s) <= usize::MAX {
        Some(dec_value(s))
    } else {
        None
    }
}

proof fn lemma_dec_value_nonneg(s: Seq<char>)
    requires
        forall|i: int| 0 <= i < s.len() ==> is_dec_digit(#[trigger] s[i]),
    ensures
        dec_value(s) >= 0,
    decreases s.len(),
{
    if s.len() > 0 {
        lemma_dec_value_nonneg(s.drop_last());
    }
}

/// More digits never shrink the denoted number.
proof fn lemma_dec_value_prefix_le(s: Seq<char>, k: int)
    requires
        forall|i: int| 0 <= i < s.len() ==> is_dec_digit(#[trigger] s[i]),
        0 <= k <= s.len(),
    ensures
        dec_value(s.take(k)) <= dec_value(s),
    decreases s.len(),
{
    if k == s.len() {
        assert(s.take(k) =~= s);
    } else {
        assert(s.drop_last().take(k) =~= s.take(k));
        lemma_dec_value_prefix_le(s.drop_last(), k);
        lemma_dec_value_nonneg(s.drop_last());
    }
}

/// Reads a key string as a record id: the canonical decimal form of an id
/// that fits the machine, and nothing else.
pub fn parse_id(s: &str) -> (r: Option<usize>)
    ensures
        match r {
            Some(n) => id_of_key(s@) == Some(n as int),
            None => id_of_key(s@) is None,
        },
{
    let n = s.unicode_len();
    if n == 0 {
        return None;
    }
    if s.get_char(0) == '0' && n > 1 {
        return None;
    }
    let mut val: usize = 0;
    let mut i: usize = 0;
    while i < n
        invariant
            n == s@.len(),
            0 < n,
            i <= n,
            s@[0] == '0' ==> n == 1,
            forall|j: int| 0 <= j < i ==> is_dec_digit(#[trigger] s@[j]),
            val as int == dec_value(s@.take(i as int)),
        decreases n - i,
    {
        let c = s.get_char(i);
        let d = c as u32;
        if d < 48 || d > 57 {
            return None;
        }
        let digit = (d - 48) as usize;
        proof {
            assert(s@.take(i + 1 as int).drop_last() =~= s@.take(i as int));
            assert(s@.take(i + 1 as int).last() == s@[i as int]);
        }
        let next = match val.checked_mul(10) {
            Some(x) => x.checked_add(digit),
            None => None,
        };
        match next {
            Some(x) => {
                val = x;
            },
            None => {
                proof {
                    if is_canonical_id(s@) {
                        lemma_dec_value_prefix_le(s@, i + 1);
                    }
                }
                return None;
            },
        }
        i += 1;
    }
    proof {
        assert(s@.take(n as int) =~= s@);
    }
    Some(val)
}

/// Whether the needle occurs inside the haystack as a contiguous run.
pub open spec fn seq_contains_sub(hay: Seq<char>, needle: Seq<char>) -> bool {
    exists|k: int|
        0 <= k && k + needle.len() <= hay.len() && #[trigger] hay.subrange(k, k + needle.len())
            == needle
}

/// Whether the needle occurs starting at the given position.
fn match_at(hay: &str, needle: &str, k: usize) -> (r: bool)
    requires
        hay@.len() <= usize::MAX,
        k + needle@.len() <= hay@.len(),
    ensures
        r == (hay@.subrange(k as int, k + needle@.len()) == needle@),
{
    let m = needle.unicode_len();
    let mut j: usize = 0;
    while j < m
        invariant
            hay@.len() <= usize::MAX,
            m == needle@.len(),
            k + m <= hay@.len(),
            j <= m,
            forall|t: int| 0 <= t < j ==> hay@[k + t] == needle@[t],
        decreases m - j,
    {
        if hay.get_char(k + j) != needle.get_char(j) {
            proof {
                assert(hay@.subrange(k as int, k + needle@.len())[j as int] != needle@[j as int]);
            }
            return false;
        }
        j += 1;
    }
    proof {
        assert(hay@.subrange(k as int, k + needle@.len()) =~= needle@);
    }
    true
}

/// Substring search, as the name criterion of a filter uses it. An empty
/// needle occurs in everything.
pub fn contains_str(hay: &str, needle: &str) -> (r: bool)
    ensures
        r == seq_contains_sub(hay@, needle@),
{
    let h = hay.unicode_len();
    let m = needle.unicode_len();
    if m > h {
        return false;
    }
    if m == 0 {
        proof {
            assert(hay@.subrange(0, 0 + needle@.len() as int) =~= needle@);
        }
        return true;
    }
    let mut k: usize = 0;
    while k <= h - m
        invariant
            h == hay@.len(),
            m == needle@.len(),
            0 < m <= h,
            k <= h - m + 1,
            forall|t: int|
                0 <= t < k ==> #[trigger] hay@.subrange(t, t + needle@.len()) != needle@,
        decreases h - m + 1 - k,
    {
        if match_at(hay, needle, k) {
            proof {
                assert(hay@.subrange(k as int, k + needle@.len()) == needle@);
            }
            return true;
        }
        k += 1;
    }
    proof {
        assert forall|t: int|
            !(0 <= t && t + needle@.len() <= hay@.len() && #[trigger] hay@.subrange(
                t,
                t + needle@.len() as int,
            ) == needle@) by {
            if 0 <= t && t + needle@.len() <= hay@.len() {
                assert(t < h - m + 1);
            }
        }
    }
    false
}

/// Whether a character counts as white space when a name argument is
/// trimmed. A function of the character alone.
pub uninterp spec fn is_space_char(c: char) -> bool;

/// Relies on char::is_whitespace: whether a character is white space
/// depends on the character alone.
#[verifier::external_body]
fn is_space(c: char) -> (r: bool)
    ensures
        r == is_space_char(c),
{
    c.is_whitespace()
}

/// The text with leading white space dropped.
pub open spec fn trim_start_spec(s: Seq<char>) -> Seq<char>
    decreases s.len(),
{
    if s.len() > 0 && is_space_char(s[0]) {
        trim_start_spec(s.skip(1))
    } else {
        s
    }
}

/// The text with trailing white space dropped.
pub open spec fn trim_end_spec(s: Seq<char>) -> Seq<char>
    decreases s.len(),
{
    if s.len() > 0 && is_space_char(s.last()) {
        trim_end_spec(s.drop_last())
    } else {
        s
    }
}

/// The text with white space dropped at both ends.
pub open spec fn trim_spec(s: Seq<char>) -> Seq<char> {
    trim_end_spec(trim_start_spec(s))
}

proof fn lemma_trim_start_at(s: Seq<char>, k: int)
    requires
        0 <= k <= s.len(),
        forall|j: int| 0 <= j < k ==> is_space_char(s[j]),
        k < s.len() ==> !is_space_char(s[k]),
    ensures
        trim_start_spec(s) == s.skip(k),
    decreases k,
{
    if k == 0 {
        assert(s.skip(0) =~= s);
    } else {
        lemma_trim_start_at(s.skip(1), k - 1);
        assert(s.skip(1).skip(k - 1) =~= s.skip(k));
    }
}

proof fn lemma_trim_end_at(s: Seq<char>, m: int)
    requires
        0 <= m <= s.len(),
        forall|j: int| m <= j < s.len() ==> is_space_char(s[j]),
        m > 0 ==> !is_space_char(s[m - 1]),
    ensures
        trim_end_spec(s) == s.take(m),
    decreases s.len() - m,
{
    if m == s.len() {
        assert(s.take(m) =~= s);
    } else {
        lemma_trim_end_at(s.drop_last(), m);
        assert(s.drop_last().take(m) =~= s.take(m));
    }
}

/// Drops white space from both ends, as a name argument is trimmed.
pub fn trim(s: &str) -> (r: &str)
    ensures
        r@ == trim_spec(s@),
{
    let n = s.unicode_len();
    let mut start: usize = 0;
    while start < n && is_space(s.get_char(start))
        invariant
            n == s@.len(),
            start <= n,
            forall|j: int| 0 <= j < start ==> is_space_char(s@[j]),
        decreases n - start,
    {
        start += 1;
    }
    let mut end: usize = n;
    while end > start && is_space(s.get_char(end - 1))
        invariant
            n == s@.len(),
            start <= end <= n,
            forall|j: int| end <= j < n ==> is_space_char(s@[j]),
        decreases end,
    {
        end -= 1;
    }
    let r = s.substring_char(start, end);
    proof {
        lemma_trim_start_at(s@, start as int);
        let u = s@.skip(start as int);
        lemma_trim_end_at(u, end - start);
        assert(u.take(end - start) =~= s@.subrange(start as int, end as int));
    }
    r
}

/// The argument tokens run together: each preceded by one space, as a
/// caller-assembled name is put together before trimming.
pub open spec fn joined_with_spaces(args: Seq<Seq<char>>) -> Seq<char>
    decreases args.len(),
{
    if args.len() == 0 {
        Seq::empty()
    } else {
        joined_with_spaces(args.drop_last()) + seq![' '] + args.last()
    }
}

/// The name an addition gets from raw argument tokens: joined with
/// spaces, then trimmed.
pub open spec fn assembled_name(args: Seq<Seq<char>>) -> Seq<char> {
    trim_spec(joined_with_spaces(args))
}

/// Joins argument tokens, one space before each.
pub fn join_args(args: &Vec<String>) -> (r: String)
    ensures
        r@ == joined_with_spaces(args@.map_values(|s: String| s@)),
{
    let ghost m = args@.map_values(|s: String| s@);
    let mut acc = String::new();
    let mut i: usize = 0;
    proof {
        reveal_strlit(" ");
        assert(m.take(0) =~= Seq::<Seq<char>>::empty());
    }
    while i < args.len()
        invariant
            m == args@.map_values(|s: String| s@),
            i <= args@.len(),
            acc@ == joined_with_spaces(m.take(i as int)),
        decreases args@.len() - i,
    {
        acc.append(" ");
        acc.append(args[i].as_str());
        proof {
            reveal_strlit(" ");
            assert(" "@ =~= seq![' ']);
            assert(m.take(i + 1).drop_last() =~= m.take(i as int));
            assert(m.take(i + 1).last() == m[i as int]);
        }
        i += 1;
    }
    proof {
        assert(m.take(args@.len() as int) =~= m);
    }
    acc
}

/// How often a character occurs in the text.
pub open spec fn count_char(s: Seq<char>, c: char) -> int
    decreases s.len(),
{
    if s.len() == 0 {
        0
    } else {
        count_char(s.drop_last(), c) + if s.last() == c {
            1int
        } else {
            0int
        }
    }
}

/// A well-formed filter argument: one key, one '=', one value.
pub open spec fn arg_well_formed(s: Seq<char>) -> bool {
    count_char(s, '=') == 1
}

/// Where the first '=' stands.
pub open spec fn first_eq_pos(s: Seq<char>) -> int
    decreases s.len(),
{
    if s.len() == 0 {
        0
    } else if s[0] == '=' {
        0
    } else {
        1 + first_eq_pos(s.skip(1))
    }
}

/// The key of a filter argument: what stands before the first '='.
pub open spec fn key_of(s: Seq<char>) -> Seq<char> {
    s.take(first_eq_pos(s))
}

/// The value of a filter argument: what stands after the first '='.
pub open spec fn val_of(s: Seq<char>) -> Seq<char> {
    s.skip(first_eq_pos(s) + 1)
}

proof fn lemma_count_concat(a: Seq<char>, b: Seq<char>, c: char)
    ensures
        count_char(a + b, c) == count_char(a, c) + count_char(b, c),
    decreases b.len(),
{
    if b.len() == 0 {
        assert(a + b =~= a);
    } else {
        assert((a + b).drop_last() =~= a + b.drop_last());
        lemma_count_concat(a, b.drop_last(), c);
    }
}

proof fn lemma_count_zero(s: Seq<char>, c: char)
    requires
        forall|i: int| 0 <= i < s.len() ==> s[i] != c,
    ensures
        count_char(s, c) == 0,
    decreases s.len(),
{
    if s.len() > 0 {
        lemma_count_zero(s.drop_last(), c);
    }
}

proof fn lemma_count_nonneg(s: Seq<char>, c: char)
    ensures
        count_char(s, c) >= 0,
    decreases s.len(),
{
    if s.len() > 0 {
        lemma_count_nonneg(s.drop_last(), c);
    }
}

/// The count taken apart around one position.
proof fn lemma_count_split(s: Seq<char>, c: char, i: int)
    requires
        0 <= i < s.len(),
    ensures
        count_char(s, c) == count_char(s.take(i), c) + (if s[i] == c {
            1int
        } else {
            0int
        }) + count_char(s.skip(i + 1), c),
{
    assert(s =~= s.take(i) + seq![s[i]] + s.skip(i + 1));
    lemma_count_concat(s.take(i) + seq![s[i]], s.skip(i + 1), c);
    lemma_count_concat(s.take(i), seq![s[i]], c);
    assert(seq![s[i]].drop_last() =~= Seq::<char>::empty());
    assert(count_char(Seq::<char>::empty(), c) == 0);
    assert(seq![s[i]].last() == s[i]);
    assert(count_char(seq![s[i]], c) == if s[i] == c {
        1int
    } else {
        0int
    });
}

proof fn lemma_first_eq_at(s: Seq<char>, i: int)
    requires
        0 <= i < s.len(),
        forall|j: int| 0 <= j < i ==> s[j] != '=',
        s[i] == '=',
    ensures
        first_eq_pos(s) == i,
    decreases i,
{
    if i > 0 {
        lemma_first_eq_at(s.skip(1), i - 1);
    }
}

/// Splits a filter argument at its one '=' into key and value; an
/// argument with none or more than one is refused.
pub fn split_arg(arg: &str) -> (r: Option<(&str, &str)>)
    ensures
        match r {
            Some(kv) => arg_well_formed(arg@) && kv.0@ == key_of(arg@) && kv.1@ == val_of(arg@),
            None => !arg_well_formed(arg@),
        },
{
    let n = arg.unicode_len();
    let mut p: usize = 0;
    while p < n && arg.get_char(p) != '='
        invariant
            n == arg@.len(),
            p <= n,
            forall|j: int| 0 <= j < p ==> arg@[j] != '=',
        decreases n - p,
    {
        p += 1;
    }
    if p == n {
        proof {
            lemma_count_zero(arg@, '=');
        }
        return None;
    }
    let mut q: usize = p + 1;
    while q < n
        invariant
            n == arg@.len(),
            p < n,
            arg@[p as int] == '=',
            forall|j: int| 0 <= j < p ==> arg@[j] != '=',
            p < q <= n,
            forall|j: int| p < j < q ==> arg@[j] != '=',
        decreases n - q,
    {
        if arg.get_char(q) == '=' {
            proof {
                lemma_count_split(arg@, '=', q as int);
                lemma_count_split(arg@.take(q as int), '=', p as int);
                assert(arg@.take(q as int)[p as int] == '=');
                lemma_count_nonneg(arg@.take(q as int).take(p as int), '=');
                lemma_count_nonneg(arg@.take(q as int).skip(p + 1), '=');
                lemma_count_nonneg(arg@.skip(q + 1), '=');
            }
            return None;
        }
        q += 1;
    }
    proof {
        lemma_count_split(arg@, '=', p as int);
        lemma_count_zero(arg@.take(p as int), '=');
        assert forall|j: int| 0 <= j < arg@.skip(p + 1).len() implies #[trigger] arg@.skip(p + 1)[j]
            != '=' by {
            assert(arg@.skip(p + 1)[j] == arg@[p + 1 + j]);
        }
        lemma_count_zero(arg@.skip(p + 1), '=');
        lemma_first_eq_at(arg@, p as int);
    }
    let key = arg.substring_char(0, p);
    let val = arg.substring_char(p + 1, n);
    proof {
        assert(key@ =~= key_of(arg@));
        assert(val@ =~= val_of(arg@));
    }
    Some((key, val))
}

/// Exact text equality.
pub fn str_eq(a: &str, b: &str) -> (r: bool)
    ensures
        r == (a@ == b@),
{
    let n = a.unicode_len();
    if n != b.unicode_len() {
        return false;
    }
    let mut i: usize = 0;
    while i < n
        invariant
            n == a@.len(),
            n == b@.len(),
            i <= n,
            forall|j: int| 0 <= j < i ==> a@[j] == b@[j],
        decreases n - i,
    {
        if a.get_char(i) != b.get_char(i) {
            return false;
        }
        i += 1;
    }
    proof {
        assert(a@ =~= b@);
    }
    true
}

} // verus!
