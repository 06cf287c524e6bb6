//! Text helpers: Unicode whitespace trimming, UTF-8 widths, comparison and
//! decimal rendering.
use vstd::prelude::*;
use vstd::std_specs::iter::IteratorSpec;
use vstd::string::*;
use vstd::utf8::*;

verus! {

broadcast use vstd::string::group_string_axioms;

/// `char::is_whitespace`: the Unicode `White_Space` property.
pub open spec fn is_unicode_whitespace(c: char) -> bool {
    ||| ('\u{9}' <= c && c <= '\u{d}')
    ||| c == ' '
    ||| c == '\u{85}'
    ||| c == '\u{a0}'
    ||| c == '\u{1680}'
    ||| ('\u{2000}' <= c && c <= '\u{200a}')
    ||| c == '\u{2028}'
    ||| c == '\u{2029}'
    ||| c == '\u{202f}'
    ||| c == '\u{205f}'
    ||| c == '\u{3000}'
}

/// `s` without its leading whitespace.
pub open spec fn trim_start_ws(s: Seq<char>) -> Seq<char>
    decreases s.len(),
{
    if s.len() > 0 && is_unicode_whitespace(s[0]) {
        trim_start_ws(s.drop_first())
    } else {
        s
    }
}

/// `s` without its trailing whitespace.
pub open spec fn trim_end_ws(s: Seq<char>) -> Seq<char>
    decreases s.len(),
{
    if s.len() > 0 && is_unicode_whitespace(s.last()) {
        trim_end_ws(s.drop_last())
    } else {
        s
    }
}

/// `str::trim`: `s` without leading and trailing whitespace.
pub open spec fn trim_ws(s: Seq<char>) -> Seq<char> {
    trim_end_ws(trim_start_ws(s))
}

/// Number of bytes of the UTF-8 encoding of `c` (`char::len_utf8`).
pub open spec fn utf8_width(c: char) -> nat {
    if (c as u32) < 0x80 {
        1
    } else if (c as u32) < 0x800 {
        2
    } else if (c as u32) < 0x10000 {
        3
    } else {
        4
    }
}

/// Number of bytes of the UTF-8 encoding of `s` (`str::len`).
pub open spec fn utf8_len(s: Seq<char>) -> nat {
    encode_utf8(s).len()
}

/// Whether `c` is the Unicode whitespace character of `char::is_whitespace`.
pub fn is_whitespace_char(c: char) -> (b: bool)
    ensures
        b == is_unicode_whitespace(c),
{
    ('\u{9}' <= c && c <= '\u{d}') || c == ' ' || c == '\u{85}' || c == '\u{a0}' || c == '\u{1680}'
        || ('\u{2000}' <= c && c <= '\u{200a}') || c == '\u{2028}' || c == '\u{2029}' || c
        == '\u{202f}' || c == '\u{205f}' || c == '\u{3000}'
}

/// The characters of `s`, in order.
pub fn chars_of(s: &str) -> (v: Vec<char>)
    ensures
        v@ == s@,
{
    let mut it = s.chars();
    let mut v: Vec<char> = Vec::new();
    let ghost n = s@.len();
    loop
        invariant_except_break
            v@.len() <= n,
            n == s@.len(),
            v@ == s@.take(v@.len() as int),
            it.remaining() == s@.skip(v@.len() as int),
            it.obeys_prophetic_iter_laws(),
        ensures
            v@ == s@,
        decreases n - v@.len(),
    {
        let ghost before = it;
        match it.next() {
            Some(c) => {
                assert(before.remaining().len() > 0);
                assert(s@.skip(v@.len() as int).drop_first() =~= s@.skip(v@.len() as int + 1));
                v.push(c);
                assert(s@.take(v@.len() as int) =~= s@.take(v@.len() as int - 1).push(c));
            },
            None => {
                assert(s@.take(v@.len() as int) =~= s@);
                break ;
            },
        }
    }
    v
}

/// `str::trim`: `s` without leading and trailing Unicode whitespace.
pub fn trim(s: &str) -> (t: &str)
    ensures
        t@ == trim_ws(s@),
{
    let chars = chars_of(s);
    let n = chars.len();
    let mut i: usize = 0;
    assert(s@.skip(0) =~= s@);
    while i < n && is_whitespace_char(chars[i])
        invariant
            i <= n,
            n == s@.len(),
            chars@ == s@,
            trim_start_ws(s@) == trim_start_ws(s@.skip(i as int)),
        decreases n - i,
    {
        assert(s@.skip(i as int).drop_first() =~= s@.skip(i + 1));
        i = i + 1;
    }
    assert(trim_start_ws(s@) == s@.skip(i as int));
    let mut j: usize = n;
    assert(s@.skip(i as int) =~= s@.subrange(i as int, n as int));
    while j > i && is_whitespace_char(chars[j - 1])
        invariant
            i <= j <= n,
            n == s@.len(),
            chars@ == s@,
            trim_ws(s@) == trim_end_ws(s@.subrange(i as int, j as int)),
        decreases j,
    {
        assert(s@.subrange(i as int, j as int).drop_last() =~= s@.subrange(i as int, j - 1));
        j = j - 1;
    }
    s.substring_char(i, j)
}

/// Whether `a` and `b` hold the same characters.
pub fn str_eq(a: &str, b: &str) -> (eq: bool)
    ensures
        eq == (a@ == b@),
{
    let ca = chars_of(a);
    let cb = chars_of(b);
    if ca.len() != cb.len() {
        return false;
    }
    let mut i: usize = 0;
    while i < ca.len()
        invariant
            i <= ca@.len(),
            ca@ == a@,
            cb@ == b@,
            ca@.len() == cb@.len(),
            forall|k: int| 0 <= k < i ==> ca@[k] == cb@[k],
        decreases ca@.len() - i,
    {
        if ca[i] != cb[i] {
            return false;
        }
        i = i + 1;
    }
    assert(a@ =~= b@);
    true
}

/// `char::len_utf8`.
pub fn utf8_width_of(c: char) -> (w: usize)
    ensures
        w == utf8_width(c),
{
    let v = c as u32;
    if v < 0x80 {
        1
    } else if v < 0x800 {
        2
    } else if v < 0x10000 {
        3
    } else {
        4
    }
}

pub proof fn lemma_encode_scalar_len(c: char)
    ensures
        encode_scalar(c as u32).len() == utf8_width(c),
{
    char_is_scalar(c);
}

/// The UTF-8 encoding of a concatenation is the concatenation of the encodings.
pub proof fn lemma_encode_utf8_append(a: Seq<char>, b: Seq<char>)
    ensures
        encode_utf8(a + b) == encode_utf8(a) + encode_utf8(b),
    decreases a.len(),
{
    if a.len() == 0 {
        assert(a + b =~= b);
        assert(encode_utf8(a) =~= Seq::<u8>::empty());
        assert(Seq::<u8>::empty() + encode_utf8(b) =~= encode_utf8(b));
    } else {
        assert((a + b).drop_first() =~= a.drop_first() + b);
        assert((a + b)[0] == a[0]);
        lemma_encode_utf8_append(a.drop_first(), b);
        assert(encode_scalar(a[0] as u32) + (encode_utf8(a.drop_first()) + encode_utf8(b)) =~= (
        encode_scalar(a[0] as u32) + encode_utf8(a.drop_first())) + encode_utf8(b));
    }
}

/// Adding one character adds its width to the UTF-8 length.
pub proof fn lemma_utf8_len_push(s: Seq<char>, c: char)
    ensures
        utf8_len(s.push(c)) == utf8_len(s) + utf8_width(c),
{
    lemma_encode_utf8_append(s, seq![c]);
    assert(s.push(c) =~= s + seq![c]);
    assert(seq![c].drop_first() =~= Seq::<char>::empty());
    assert(encode_utf8(Seq::<char>::empty()) =~= Seq::<u8>::empty());
    assert(encode_utf8(seq![c]) =~= encode_scalar(c as u32));
    lemma_encode_scalar_len(c);
}

proof fn lemma_trim_start_first(s: Seq<char>)
    ensures
        trim_start_ws(s).len() > 0 ==> !is_unicode_whitespace(trim_start_ws(s)[0]),
    decreases s.len(),
{
    if s.len() > 0 && is_unicode_whitespace(s[0]) {
        lemma_trim_start_first(s.drop_first());
    }
}

proof fn lemma_trim_end_prefix(s: Seq<char>)
    ensures
        trim_end_ws(s) == s.take(trim_end_ws(s).len() as int),
        trim_end_ws(s).len() <= s.len(),
        trim_end_ws(s).len() > 0 ==> !is_unicode_whitespace(trim_end_ws(s).last()),
    decreases s.len(),
{
    if s.len() > 0 && is_unicode_whitespace(s.last()) {
        lemma_trim_end_prefix(s.drop_last());
        assert(s.drop_last().take(trim_end_ws(s).len() as int) =~= s.take(
            trim_end_ws(s).len() as int,
        ));
    } else {
        assert(s.take(s.len() as int) =~= s);
    }
}

/// Trimming a trimmed text changes nothing.
pub proof fn lemma_trim_idempotent(s: Seq<char>)
    ensures
        trim_ws(trim_ws(s)) == trim_ws(s),
{
    let u = trim_start_ws(s);
    let t = trim_end_ws(u);
    lemma_trim_start_first(s);
    lemma_trim_end_prefix(u);
    if t.len() > 0 {
        assert(t[0] == u[0]);
        assert(trim_start_ws(t) == t);
        assert(trim_end_ws(t) == t);
    } else {
        assert(trim_start_ws(t) == t);
        assert(trim_end_ws(t) == t);
    }
}

proof fn lemma_trim_start_all_ws(s: Seq<char>)
    ensures
        trim_start_ws(s).len() == 0 <==> forall|i: int|
            0 <= i < s.len() ==> is_unicode_whitespace(#[trigger] s[i]),
    decreases s.len(),
{
    if s.len() > 0 && is_unicode_whitespace(s[0]) {
        lemma_trim_start_all_ws(s.drop_first());
        if trim_start_ws(s).len() == 0 {
            assert forall|i: int| 0 <= i < s.len() implies is_unicode_whitespace(#[trigger] s[i]) by {
                if i > 0 {
                    assert(s[i] == s.drop_first()[i - 1]);
                }
            }
        } else {
            let j = choose|j: int| 0 <= j < s.drop_first().len() && !is_unicode_whitespace(
                #[trigger] s.drop_first()[j],
            );
            assert(!is_unicode_whitespace(s[j + 1]));
        }
    } else if s.len() > 0 {
        assert(!is_unicode_whitespace(s[0]));
    }
}

proof fn lemma_trim_end_keeps_first(u: Seq<char>)
    requires
        u.len() > 0,
        !is_unicode_whitespace(u[0]),
    ensures
        trim_end_ws(u).len() > 0,
    decreases u.len(),
{
    if is_unicode_whitespace(u.last()) {
        assert(u.len() > 1);
        assert(u.drop_last()[0] == u[0]);
        lemma_trim_end_keeps_first(u.drop_last());
    }
}

/// A text trims to nothing exactly when it is all whitespace.
pub proof fn lemma_trim_keeps_non_whitespace(s: Seq<char>)
    ensures
        trim_ws(s).len() > 0 <==> exists|i: int|
            0 <= i < s.len() && !is_unicode_whitespace(#[trigger] s[i]),
{
    lemma_trim_start_all_ws(s);
    lemma_trim_start_first(s);
    lemma_trim_end_prefix(trim_start_ws(s));
    if trim_start_ws(s).len() > 0 {
        lemma_trim_end_keeps_first(trim_start_ws(s));
    }
}

proof fn lemma_trim_start_skips(before: Seq<char>, x: Seq<char>)
    requires
        forall|i: int| 0 <= i < before.len() ==> is_unicode_whitespace(#[trigger] before[i]),
    ensures
        trim_start_ws(before + x) == trim_start_ws(x),
    decreases before.len(),
{
    if before.len() > 0 {
        assert((before + x)[0] == before[0]);
        assert((before + x).drop_first() =~= before.drop_first() + x);
        assert forall|i: int| 0 <= i < before.drop_first().len() implies is_unicode_whitespace(
            #[trigger] before.drop_first()[i],
        ) by {
            assert(before.drop_first()[i] == before[i + 1]);
        }
        lemma_trim_start_skips(before.drop_first(), x);
    } else {
        assert(before + x =~= x);
    }
}

proof fn lemma_trim_end_skips(x: Seq<char>, after: Seq<char>)
    requires
        forall|i: int| 0 <= i < after.len() ==> is_unicode_whitespace(#[trigger] after[i]),
    ensures
        trim_end_ws(x + after) == trim_end_ws(x),
    decreases after.len(),
{
    if after.len() > 0 {
        assert((x + after).last() == after.last());
        assert((x + after).drop_last() =~= x + after.drop_last());
        assert forall|i: int| 0 <= i < after.drop_last().len() implies is_unicode_whitespace(
            #[trigger] after.drop_last()[i],
        ) by {
            assert(after.drop_last()[i] == after[i]);
        }
        lemma_trim_end_skips(x, after.drop_last());
    } else {
        assert(x + after =~= x);
    }
}

/// Trimming removes whitespace around a text that starts and ends with
/// other characters, and nothing else.
pub proof fn lemma_trim_surrounded(before: Seq<char>, mid: Seq<char>, after: Seq<char>)
    requires
        forall|i: int| 0 <= i < before.len() ==> is_unicode_whitespace(#[trigger] before[i]),
        forall|i: int| 0 <= i < after.len() ==> is_unicode_whitespace(#[trigger] after[i]),
        mid.len() > 0,
        !is_unicode_whitespace(mid[0]),
        !is_unicode_whitespace(mid.last()),
    ensures
        trim_ws(before + mid + after) == mid,
{
    assert(before + mid + after =~= before + (mid + after));
    lemma_trim_start_skips(before, mid + after);
    assert((mid + after)[0] == mid[0]);
    assert(trim_start_ws(mid + after) == mid + after);
    lemma_trim_end_skips(mid, after);
}

// ---------------------------------------------------------------------------
// Decimal rendering
// ---------------------------------------------------------------------------

/// The decimal digit character of `d < 10`.
pub open spec fn digit_char(d: nat) -> char {
    if d == 0 {
        '0'
    } else if d == 1 {
        '1'
    } else if d == 2 {
        '2'
    } else if d == 3 {
        '3'
    } else if d == 4 {
        '4'
    } else if d == 5 {
        '5'
    } else if d == 6 {
        '6'
    } else if d == 7 {
        '7'
    } else if d == 8 {
        '8'
    } else {
        '9'
    }
}

/// The decimal representation of `n`, without leading zeros (`"0"` for zero).
pub open spec fn decimal(n: nat) -> Seq<char>
    decreases n,
{
    if n < 10 {
        seq![digit_char(n)]
    } else {
        decimal(n / 10).push(digit_char(n % 10))
    }
}

fn digit_str(d: u128) -> (s: &'static str)
    requires
        d < 10,
    ensures
        s@ == seq![digit_char(d as nat)],
{
    proof {
        reveal_strlit("0");
        reveal_strlit("1");
        reveal_strlit("2");
        reveal_strlit("3");
        reveal_strlit("4");
        reveal_strlit("5");
        reveal_strlit("6");
        reveal_strlit("7");
        reveal_strlit("8");
        reveal_strlit("9");
    }
    if d == 0 {
        "0"
    } else if d == 1 {
        "1"
    } else if d == 2 {
        "2"
    } else if d == 3 {
        "3"
    } else if d == 4 {
        "4"
    } else if d == 5 {
        "5"
    } else if d == 6 {
        "6"
    } else if d == 7 {
        "7"
    } else if d == 8 {
        "8"
    } else {
        "9"
    }
}

/// Appends the decimal representation of `n` to `out` (`n.to_string()`).
pub fn push_decimal(out: &mut String, n: u128)
    ensures
        final(out)@ == old(out)@ + decimal(n as nat),
    decreases n,
{
    if n < 10 {
        out.append(digit_str(n));
    } else {
        push_decimal(out, n / 10);
        out.append(digit_str(n % 10));
        assert(old(out)@ + decimal(n as nat) =~= old(out)@ + decimal((n / 10) as nat) + seq![
            digit_char((n % 10) as nat),
        ]);
    }
}

} // verus!
