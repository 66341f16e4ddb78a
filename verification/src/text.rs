use vstd::prelude::*;

verus! {

/// Unicode `White_Space`: the characters for which `char::is_whitespace` holds.
pub open spec fn is_whitespace_char(c: char) -> bool {
    ||| '\u{9}' <= c <= '\u{d}'
    ||| c == ' '
    ||| c == '\u{85}'
    ||| c == '\u{a0}'
    ||| c == '\u{1680}'
    ||| '\u{2000}' <= c <= '\u{200a}'
    ||| c == '\u{2028}'
    ||| c == '\u{2029}'
    ||| c == '\u{202f}'
    ||| c == '\u{205f}'
    ||| c == '\u{3000}'
}

/// Whether `c` is a Unicode whitespace character.
pub fn is_whitespace(c: char) -> (b: bool)
    ensures
        b == is_whitespace_char(c),
{
    ('\u{9}' <= c && c <= '\u{d}') || c == ' ' || c == '\u{85}' || c == '\u{a0}' || c == '\u{1680}'
        || ('\u{2000}' <= c && c <= '\u{200a}') || c == '\u{2028}' || c == '\u{2029}' || c
        == '\u{202f}' || c == '\u{205f}' || c == '\u{3000}'
}

/// The maximal runs of non-whitespace characters of `s`, in order.
/// A non-whitespace character directly followed by another one belongs to
/// the same word; any other non-whitespace character ends its word.
pub open spec fn words(s: Seq<char>) -> Seq<Seq<char>>
    decreases s.len(),
{
    if s.len() == 0 {
        seq![]
    } else {
        let rest = words(s.drop_first());
        if is_whitespace_char(s[0]) {
            rest
        } else if s.len() > 1 && !is_whitespace_char(s[1]) {
            seq![seq![s[0]] + rest[0]] + rest.drop_first()
        } else {
            seq![seq![s[0]]] + rest
        }
    }
}

/// The words of `t`, when `pending` is a word that `t` may continue.
pub open spec fn words_after(pending: Seq<char>, t: Seq<char>) -> Seq<Seq<char>> {
    if pending.len() == 0 {
        words(t)
    } else if t.len() > 0 && !is_whitespace_char(t[0]) {
        seq![pending + words(t)[0]] + words(t).drop_first()
    } else {
        seq![pending] + words(t)
    }
}

/// `String::push` from std: appends `c` to `s`.
#[verifier::external_body]
pub(crate) fn push_char(s: &mut String, c: char)
    ensures
        final(s)@ == old(s)@.push(c),
{
    s.push(c);
}

/// The characters of `s`, in order.
pub fn chars_of(s: &str) -> (v: Vec<char>)
    ensures
        v@ == s@,
{
    broadcast use vstd::string::group_string_axioms;

    let mut v: Vec<char> = Vec::new();
    for c in it: s.chars()
        invariant
            it.seq() == s@,
            v@ == it.seq().take(it.index() as int),
    {
        v.push(c);
    }
    assert(v@ == s@);
    v
}

proof fn lemma_words_step(pending: Seq<char>, t: Seq<char>)
    requires
        t.len() > 0,
    ensures
        is_whitespace_char(t[0]) && pending.len() == 0 ==> words_after(pending, t) == words(
            t.drop_first(),
        ),
        is_whitespace_char(t[0]) && pending.len() > 0 ==> words_after(pending, t) == seq![pending]
            + words(t.drop_first()),
        !is_whitespace_char(t[0]) ==> words_after(pending, t) == words_after(
            pending.push(t[0]),
            t.drop_first(),
        ),
{
    let u = t.drop_first();
    if !is_whitespace_char(t[0]) {
        let p2 = pending.push(t[0]);
        assert(u.len() > 0 ==> u[0] == t[1]);
        if u.len() > 0 && !is_whitespace_char(u[0]) {
            assert(u.len() > 0);
            assert(words(u).len() > 0) by {
                if u.len() > 1 && !is_whitespace_char(u[1]) {
                } else {
                }
            }
            assert(seq![t[0]] + words(u)[0] =~= words(t)[0]);
            assert(words(t).drop_first() =~= words(u).drop_first());
            if pending.len() > 0 {
                assert(pending + words(t)[0] =~= p2 + words(u)[0]);
            } else {
                assert(p2 =~= seq![t[0]]);
                assert(words(t) =~= seq![p2 + words(u)[0]] + words(u).drop_first());
            }
        } else {
            if pending.len() > 0 {
                assert(words(t) =~= seq![seq![t[0]]] + words(u));
                assert(words(t)[0] =~= seq![t[0]]);
                assert(words(t).drop_first() =~= words(u));
                assert(pending + words(t)[0] =~= p2);
                assert(words_after(pending, t) =~= seq![p2] + words(u));
            } else {
                assert(seq![t[0]] =~= p2);
            }
        }
    }
}

/// `str::split_whitespace`, collected: the words of `s`.
pub fn split_whitespace(s: &str) -> (v: Vec<String>)
    ensures
        v.deep_view() == words(s@),
{
    let cs = chars_of(s);
    let mut acc: Vec<String> = Vec::new();
    let mut cur = String::new();
    let mut i: usize = 0;
    assert(cs@.skip(0) =~= cs@);
    while i < cs.len()
        invariant
            cs@ == s@,
            i <= cs@.len(),
            words(s@) == acc.deep_view() + words_after(cur@, cs@.skip(i as int)),
        decreases cs@.len() - i,
    {
        let c = cs[i];
        let ghost t = cs@.skip(i as int);
        proof {
            lemma_words_step(cur@, t);
            assert(t.drop_first() =~= cs@.skip(i + 1));
        }
        if is_whitespace(c) {
            if !cur.as_str().is_empty() {
                let ghost before = acc.deep_view();
                let ghost w = cur@;
                let done = cur;
                acc.push(done);
                cur = String::new();
                assert(acc.deep_view() =~= before.push(w));
                assert(before + (seq![w] + words(cs@.skip(i + 1))) =~= before.push(w) + words(
                    cs@.skip(i + 1),
                ));
            }
        } else {
            push_char(&mut cur, c);
        }
        i = i + 1;
    }
    proof {
        let t = cs@.skip(i as int);
        assert(t.len() == 0);
    }
    if !cur.as_str().is_empty() {
        let ghost before = acc.deep_view();
        let ghost w = cur@;
        acc.push(cur);
        assert(acc.deep_view() =~= before.push(w));
        assert(before + seq![w] =~= before.push(w));
    } else {
        assert(acc.deep_view() + seq![] =~= acc.deep_view());
    }
    acc
}

/// Whether `c` is one of the ASCII digits `0` to `9`.
pub open spec fn is_ascii_digit(c: char) -> bool {
    '0' <= c <= '9'
}

/// The number that the ASCII digits `d` spell in base ten.
pub open spec fn decimal_value(d: Seq<char>) -> int
    decreases d.len(),
{
    if d.len() == 0 {
        0
    } else {
        decimal_value(d.drop_last()) * 10 + (d.last() as int - '0' as int)
    }
}

/// The digits of a number written with an optional leading sign.
pub open spec fn unsigned_part(s: Seq<char>) -> Seq<char> {
    if s.len() > 0 && (s[0] == '-' || s[0] == '+') {
        s.drop_first()
    } else {
        s
    }
}

/// What `str::parse::<i32>` gives for `s`: an optional `+` or `-`, then one
/// or more ASCII digits, whose value must fit in an `i32`; anything else is
/// refused.
pub open spec fn i32_from_text(s: Seq<char>) -> Option<i32> {
    let d = unsigned_part(s);
    if d.len() == 0 || !(forall|i: int| 0 <= i < d.len() ==> is_ascii_digit(#[trigger] d[i])) {
        None
    } else {
        let v = if s[0] == '-' {
            -decimal_value(d)
        } else {
            decimal_value(d)
        };
        if i32::MIN <= v <= i32::MAX {
            Some(v as i32)
        } else {
            None
        }
    }
}

proof fn lemma_decimal_value_grows(d: Seq<char>, k: int)
    requires
        0 <= k <= d.len(),
        forall|i: int| 0 <= i < d.len() ==> is_ascii_digit(#[trigger] d[i]),
    ensures
        0 <= decimal_value(d.take(k)) <= decimal_value(d),
    decreases d.len(),
{
    if k == d.len() {
        assert(d.take(k) =~= d);
        lemma_decimal_value_nonneg(d);
    } else {
        let e = d.drop_last();
        lemma_decimal_value_grows(e, k);
        assert(e.take(k) =~= d.take(k));
        lemma_decimal_value_nonneg(e);
    }
}

pub(crate) proof fn lemma_decimal_value_nonneg(d: Seq<char>)
    requires
        forall|i: int| 0 <= i < d.len() ==> is_ascii_digit(#[trigger] d[i]),
    ensures
        0 <= decimal_value(d),
    decreases d.len(),
{
    if d.len() > 0 {
        let e = d.drop_last();
        assert forall|i: int| 0 <= i < e.len() implies is_ascii_digit(#[trigger] e[i]) by {
            assert(e[i] == d[i]);
        }
        lemma_decimal_value_nonneg(e);
        assert(is_ascii_digit(d[d.len() - 1]));
    }
}

/// `str::parse::<i32>`: the number that `s` writes, if it writes one that
/// fits in an `i32`.
pub fn parse_i32(s: &str) -> (r: Option<i32>)
    ensures
        r == i32_from_text(s@),
{
    let cs = chars_of(s);
    let n = cs.len();
    let negative = n > 0 && cs[0] == '-';
    let start: usize = if n > 0 && (cs[0] == '-' || cs[0] == '+') {
        1
    } else {
        0
    };
    let ghost d = unsigned_part(s@);
    assert(d =~= cs@.skip(start as int));
    if start == n {
        return None;
    }
    let mut acc: u64 = 0;
    let mut i: usize = start;
    assert(d.take(0) =~= seq![]);
    while i < n
        invariant
            cs@ == s@,
            n == cs@.len(),
            d == cs@.skip(start as int),
            d == unsigned_part(s@),
            start <= i <= n,
            start < n,
            negative == (s@[0] == '-'),
            forall|j: int| 0 <= j < i - start ==> is_ascii_digit(#[trigger] d[j]),
            acc == decimal_value(d.take(i - start)),
            acc <= 0x8000_0000,
        decreases n - i,
    {
        let c = cs[i];
        assert(c == d[i - start]);
        if !('0' <= c && c <= '9') {
            assert(!is_ascii_digit(d[i - start]));
            return None;
        }
        let digit = (c as u32 - '0' as u32) as u64;
        proof {
            let k = i - start;
            assert(d.take(k + 1).drop_last() =~= d.take(k));
            assert(d.take(k + 1).last() == c);
        }
        acc = acc * 10 + digit;
        i = i + 1;
        if acc > 0x8000_0000 {
            proof {
                let k = i - start;
                if forall|j: int| 0 <= j < d.len() ==> is_ascii_digit(#[trigger] d[j]) {
                    lemma_decimal_value_grows(d, k);
                    assert(decimal_value(d) > 0x8000_0000);
                    assert(i32_from_text(s@) is None);
                }
            }
            return None;
        }
    }
    assert(d.take(i - start) =~= d);
    if negative {
        Some((0 - (acc as i64)) as i32)
    } else if acc <= 0x7fff_ffff {
        Some(acc as i32)
    } else {
        None
    }
}

/// What `char::to_uppercase` yields for `c`: its Unicode uppercase mapping,
/// one or more characters.
pub uninterp spec fn uppercase_of(c: char) -> Seq<char>;

/// `char::to_uppercase`, collected into a `String`. The result is named by
/// `uppercase_of`; of the Unicode case tables only the ASCII part is stated:
/// `a` to `z` become `A` to `Z`, and every other ASCII character stays as it is.
#[verifier::external_body]
pub(crate) fn char_to_uppercase(c: char) -> (s: String)
    ensures
        s@ == uppercase_of(c),
        'a' <= c <= 'z' ==> s@ == seq![((c as u32) - 32) as char],
        (c as u32) < 128 && !('a' <= c <= 'z') ==> s@ == seq![c],
{
    c.to_uppercase().collect::<String>()
}

/// The decimal digit that writes `d`.
pub open spec fn digit_char(d: int) -> char {
    ('0' as int + d) as char
}

/// The decimal digit that writes `d`, for `d` below ten.
pub fn digit(d: u8) -> (c: char)
    requires
        d < 10,
    ensures
        c == digit_char(d as int),
{
    (48u8 + d) as char
}

} // verus!
