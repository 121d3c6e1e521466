//! Version-string comparison: a version's numeric components (split on dots,
//! components that are not plain numbers dropped) compared lexicographically.

use vstd::prelude::*;
use vstd::string::StrSliceExecFns;

use crate::text::is_ascii_digit_char;

verus! {

/// Split into dot-separated components, scanning left to right with the
/// current component accumulated in `cur`.
pub open spec fn split_acc(s: Seq<char>, cur: Seq<char>) -> Seq<Seq<char>>
    decreases s.len(),
{
    if s.len() == 0 {
        seq![cur]
    } else if s[0] == '.' {
        seq![cur] + split_acc(s.skip(1), Seq::empty())
    } else {
        split_acc(s.skip(1), cur.push(s[0]))
    }
}

/// The dot-separated components of `s` (an empty string has one empty
/// component, as `str::split` yields it).
pub open spec fn split_dots(s: Seq<char>) -> Seq<Seq<char>> {
    split_acc(s, Seq::empty())
}

/// The digit part of a component: a single leading `+` is tolerated.
pub open spec fn comp_digits(c: Seq<char>) -> Seq<char> {
    if c.len() > 0 && c[0] == '+' {
        c.skip(1)
    } else {
        c
    }
}

pub open spec fn digit_val(c: char) -> int {
    c as u32 - 48
}

/// The number written by a digit sequence, most significant first.
pub open spec fn digits_value(d: Seq<char>) -> int
    decreases d.len(),
{
    if d.len() == 0 {
        0
    } else {
        digits_value(d.drop_last()) * 10 + digit_val(d.last())
    }
}

/// A component parses as a `u32` exactly when, after an optional leading
/// `+`, it is one or more decimal digits whose value fits.
pub open spec fn parse_component(c: Seq<char>) -> Option<u32> {
    let digits = comp_digits(c);
    if digits.len() > 0 && (forall|i: int| 0 <= i < digits.len() ==> is_ascii_digit_char(
        digits[i],
    )) && digits_value(digits) <= u32::MAX as int {
        Some(digits_value(digits) as u32)
    } else {
        None
    }
}

/// The components that parse as numbers, in order; the rest are dropped.
pub open spec fn numeric_components(parts: Seq<Seq<char>>) -> Seq<u32>
    decreases parts.len(),
{
    if parts.len() == 0 {
        Seq::empty()
    } else {
        let rest = numeric_components(parts.drop_first());
        match parse_component(parts.first()) {
            Some(v) => seq![v] + rest,
            None => rest,
        }
    }
}

/// The comparison key of a version string.
pub open spec fn version_key(s: Seq<char>) -> Seq<u32> {
    numeric_components(split_dots(s))
}

/// Lexicographic "greater than" on numeric keys, a longer key beating its
/// own proper prefix.
pub open spec fn lex_gt(a: Seq<u32>, b: Seq<u32>) -> bool
    decreases a.len() + b.len(),
{
    if b.len() == 0 {
        a.len() > 0
    } else if a.len() == 0 {
        false
    } else if a.first() != b.first() {
        a.first() > b.first()
    } else {
        lex_gt(a.drop_first(), b.drop_first())
    }
}

/// `s` with every leading `c` removed.
pub open spec fn strip_leading(s: Seq<char>, c: char) -> Seq<char>
    decreases s.len(),
{
    if s.len() > 0 && s[0] == c {
        strip_leading(s.skip(1), c)
    } else {
        s
    }
}

pub open spec fn key_at(k: Seq<u32>, i: int) -> u32 {
    if 0 <= i < k.len() {
        k[i]
    } else {
        0
    }
}

/// Comparison of two versions by their first three numeric components,
/// missing components read as 0, after leading `v`s are stripped.
pub open spec fn version_newer_spec(new: Seq<char>, cur: Seq<char>) -> bool {
    let a = version_key(strip_leading(new, 'v'));
    let b = version_key(strip_leading(cur, 'v'));
    if key_at(a, 0) != key_at(b, 0) {
        key_at(a, 0) > key_at(b, 0)
    } else if key_at(a, 1) != key_at(b, 1) {
        key_at(a, 1) > key_at(b, 1)
    } else {
        key_at(a, 2) > key_at(b, 2)
    }
}

proof fn lemma_numeric_components_cons(head: Seq<char>, rest: Seq<Seq<char>>)
    ensures
        numeric_components(seq![head] + rest) == (match parse_component(head) {
            Some(v) => seq![v] + numeric_components(rest),
            None => numeric_components(rest),
        }),
{
    assert((seq![head] + rest).drop_first() =~= rest);
    assert((seq![head] + rest).first() == head);
}

proof fn lemma_digits_value_push(d: Seq<char>, c: char)
    ensures
        digits_value(d.push(c)) == digits_value(d) * 10 + digit_val(c),
{
    assert(d.push(c).drop_last() =~= d);
    assert(d.push(c).last() == c);
}

proof fn lemma_digits_value_nonneg(d: Seq<char>)
    requires
        forall|i: int| 0 <= i < d.len() ==> is_ascii_digit_char(d[i]),
    ensures
        digits_value(d) >= 0,
    decreases d.len(),
{
    if d.len() > 0 {
        assert(is_ascii_digit_char(d.last()));
        lemma_digits_value_nonneg(d.drop_last());
    }
}

proof fn lemma_strip_skip(s: Seq<char>, c: char, q: int)
    requires
        0 <= q <= s.len(),
        forall|j: int| 0 <= j < q ==> s[j] == c,
        q == s.len() || s[q] != c,
    ensures
        strip_leading(s, c) == s.skip(q),
    decreases q,
{
    if q == 0 {
        assert(s.skip(0) =~= s);
    } else {
        assert(s[0] == c);
        let t = s.skip(1);
        assert(forall|j: int| 0 <= j < q - 1 ==> t[j] == c);
        lemma_strip_skip(t, c, q - 1);
        assert(t.skip(q - 1) =~= s.skip(q));
    }
}

/// The numeric components of a version string, in order.
fn version_key_exec(s: &str) -> (r: Vec<u32>)
    ensures
        r@ == version_key(s@),
{
    let n = s.unicode_len();
    let mut out: Vec<u32> = Vec::new();
    let mut p: usize = 0;
    let ghost mut cur: Seq<char> = Seq::empty();
    let mut comp_empty: bool = true;
    let mut plus_seen: bool = false;
    let mut has_digit: bool = false;
    let mut all_digits: bool = true;
    let mut overflow: bool = false;
    let mut value: u64 = 0;
    proof {
        assert(s@.skip(0) =~= s@);
        assert(out@ + numeric_components(split_dots(s@)) =~= numeric_components(split_dots(s@)));
    }
    while p < n
        invariant
            p <= n,
            n == s@.len(),
            out@ + numeric_components(split_acc(s@.skip(p as int), cur)) == version_key(s@),
            comp_empty == (cur.len() == 0),
            plus_seen == (cur.len() > 0 && cur[0] == '+'),
            all_digits ==> has_digit == (comp_digits(cur).len() > 0),
            all_digits == (forall|i: int|
                0 <= i < comp_digits(cur).len() ==> is_ascii_digit_char(comp_digits(cur)[i])),
            all_digits ==> (overflow == (digits_value(comp_digits(cur)) > u32::MAX as int)),
            all_digits && !overflow ==> value as int == digits_value(comp_digits(cur)),
        decreases n - p,
    {
        let c = s.get_char(p);
        proof {
            assert(s@.skip(p as int)[0] == s@[p as int]);
            assert(s@.skip(p as int).skip(1) =~= s@.skip(p as int + 1));
        }
        if c == '.' {
            proof {
                assert(split_acc(s@.skip(p as int), cur) == seq![cur] + split_acc(
                    s@.skip(p as int + 1),
                    Seq::empty(),
                ));
                lemma_numeric_components_cons(cur, split_acc(s@.skip(p as int + 1), Seq::empty()));
                if has_digit && all_digits && !overflow {
                    lemma_digits_value_nonneg(comp_digits(cur));
                    assert(parse_component(cur) == Some(value as u32));
                } else {
                    assert(parse_component(cur) is None);
                }
            }
            if has_digit && all_digits && !overflow {
                out.push(value as u32);
                proof {
                    assert(out@ =~= out@.drop_last().push(value as u32));
                    assert(out@.drop_last() + (seq![value as u32] + numeric_components(
                        split_acc(s@.skip(p as int + 1), Seq::empty()),
                    )) =~= out@ + numeric_components(split_acc(s@.skip(p as int + 1), Seq::empty())));
                }
            }
            proof {
                cur = Seq::empty();
            }
            comp_empty = true;
            plus_seen = false;
            has_digit = false;
            all_digits = true;
            overflow = false;
            value = 0;
        } else {
            proof {
                assert(split_acc(s@.skip(p as int), cur) == split_acc(
                    s@.skip(p as int + 1),
                    cur.push(c),
                ));
            }
            if comp_empty && c == '+' {
                plus_seen = true;
                proof {
                    cur = cur.push(c);
                    assert(comp_digits(cur) =~= Seq::<char>::empty());
                }
                comp_empty = false;
            } else {
                let v = c as u32;
                let ghost digits_old = comp_digits(cur);
                proof {
                    cur = cur.push(c);
                    assert(comp_digits(cur) =~= digits_old.push(c));
                    lemma_digits_value_push(digits_old, c);
                }
                if v >= 48 && v <= 57 {
                    if all_digits {
                        if !overflow {
                            proof {
                                lemma_digits_value_nonneg(digits_old);
                            }
                            value = value * 10 + ((v - 48) as u64);
                            if value > 4294967295u64 {
                                overflow = true;
                            }
                        } else {
                            proof {
                                lemma_digits_value_nonneg(digits_old);
                                assert(digits_value(digits_old) > u32::MAX as int);
                                assert(digits_value(comp_digits(cur)) > u32::MAX as int);
                            }
                        }
                    } else {
                        proof {
                            let k = choose|k: int|
                                0 <= k < digits_old.len() && !is_ascii_digit_char(digits_old[k]);
                            assert(!is_ascii_digit_char(comp_digits(cur)[k]));
                        }
                    }
                    has_digit = true;
                } else {
                    proof {
                        assert(!is_ascii_digit_char(c));
                        assert(comp_digits(cur)[comp_digits(cur).len() - 1] == c);
                    }
                    all_digits = false;
                }
                comp_empty = false;
            }
        }
        p = p + 1;
    }
    proof {
        assert(s@.skip(n as int) =~= Seq::<char>::empty());
        assert(split_acc(s@.skip(n as int), cur) == seq![cur]);
        assert(seq![cur] =~= seq![cur] + Seq::<Seq<char>>::empty());
        lemma_numeric_components_cons(cur, Seq::empty());
        if has_digit && all_digits && !overflow {
            lemma_digits_value_nonneg(comp_digits(cur));
            assert(parse_component(cur) == Some(value as u32));
        } else {
            assert(parse_component(cur) is None);
        }
    }
    if has_digit && all_digits && !overflow {
        out.push(value as u32);
        proof {
            assert(out@ =~= out@.drop_last() + (seq![value as u32] + Seq::<u32>::empty()));
        }
    } else {
        proof {
            assert(out@ + Seq::<u32>::empty() =~= out@);
        }
    }
    out
}

/// Lexicographic comparison of two numeric keys.
fn lex_gt_exec(a: &Vec<u32>, b: &Vec<u32>) -> (r: bool)
    ensures
        r == lex_gt(a@, b@),
{
    let na = a.len();
    let nb = b.len();
    let mut i: usize = 0;
    proof {
        assert(a@.skip(0) =~= a@);
        assert(b@.skip(0) =~= b@);
    }
    while i < na && i < nb
        invariant
            i <= na,
            i <= nb,
            na == a@.len(),
            nb == b@.len(),
            lex_gt(a@, b@) == lex_gt(a@.skip(i as int), b@.skip(i as int)),
        decreases na - i,
    {
        proof {
            assert(a@.skip(i as int).first() == a@[i as int]);
            assert(b@.skip(i as int).first() == b@[i as int]);
            assert(a@.skip(i as int).drop_first() =~= a@.skip(i as int + 1));
            assert(b@.skip(i as int).drop_first() =~= b@.skip(i as int + 1));
        }
        if a[i] != b[i] {
            return a[i] > b[i];
        }
        i = i + 1;
    }
    proof {
        if i == na {
            assert(a@.skip(i as int) =~= Seq::<u32>::empty());
        }
        if i == nb {
            assert(b@.skip(i as int) =~= Seq::<u32>::empty());
        }
    }
    na > nb
}

/// Compare two version strings; true when `a`'s numeric key is greater.
pub fn version_greater_than(a: &str, b: &str) -> (r: bool)
    ensures
        r == lex_gt(version_key(a@), version_key(b@)),
{
    let ka = version_key_exec(a);
    let kb = version_key_exec(b);
    lex_gt_exec(&ka, &kb)
}

/// The numeric key of a version string after leading `v`s are stripped.
fn stripped_key(s: &str) -> (r: Vec<u32>)
    ensures
        r@ == version_key(strip_leading(s@, 'v')),
{
    let n = s.unicode_len();
    let mut q: usize = 0;
    while q < n && s.get_char(q) == 'v'
        invariant
            q <= n,
            n == s@.len(),
            forall|j: int| 0 <= j < q ==> s@[j] == 'v',
        decreases n - q,
    {
        q = q + 1;
    }
    proof {
        lemma_strip_skip(s@, 'v', q as int);
    }
    let rest = s.substring_char(q, n);
    proof {
        assert(rest@ =~= s@.skip(q as int));
    }
    version_key_exec(rest)
}

/// Whether version `new` is newer than `current`: the first three numeric
/// components decide, missing ones read as 0, a leading `v` is ignored.
pub fn version_newer(new: &str, current: &str) -> (r: bool)
    ensures
        r == version_newer_spec(new@, current@),
{
    let ka = stripped_key(new);
    let kb = stripped_key(current);
    let a0 = if ka.len() > 0 { ka[0] } else { 0 };
    let a1 = if ka.len() > 1 { ka[1] } else { 0 };
    let a2 = if ka.len() > 2 { ka[2] } else { 0 };
    let b0 = if kb.len() > 0 { kb[0] } else { 0 };
    let b1 = if kb.len() > 1 { kb[1] } else { 0 };
    let b2 = if kb.len() > 2 { kb[2] } else { 0 };
    if a0 != b0 {
        a0 > b0
    } else if a1 != b1 {
        a1 > b1
    } else {
        a2 > b2
    }
}

} // verus!
