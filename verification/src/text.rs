//! Text helpers shared by the library: character access, building strings,
//! exact replacement, prefix handling, decimal rendering and case folding.

use vstd::prelude::*;

verus! {

// ---------------------------------------------------------------------------
// Specifications
// ---------------------------------------------------------------------------

/// `s` with every non-overlapping occurrence of `pat`, scanned from the left,
/// replaced by `to` (`pat` is non-empty wherever this is used).
pub open spec fn replace_spec(s: Seq<char>, pat: Seq<char>, to: Seq<char>) -> Seq<char>
    decreases s.len(),
{
    if pat.len() == 0 || s.len() == 0 {
        s
    } else if pat.len() <= s.len() && s.take(pat.len() as int) == pat {
        to + replace_spec(s.skip(pat.len() as int), pat, to)
    } else {
        seq![s[0]] + replace_spec(s.skip(1), pat, to)
    }
}

/// `s` begins with `prefix`.
pub open spec fn starts_with_spec(s: Seq<char>, prefix: Seq<char>) -> bool {
    prefix.len() <= s.len() && s.take(prefix.len() as int) == prefix
}

/// `s` with `prefix` removed from its front as many times as it occurs there.
pub open spec fn trim_prefix_spec(s: Seq<char>, prefix: Seq<char>) -> Seq<char>
    decreases s.len(),
{
    if prefix.len() > 0 && starts_with_spec(s, prefix) {
        trim_prefix_spec(s.skip(prefix.len() as int), prefix)
    } else {
        s
    }
}

/// After a non-empty prefix is trimmed, the text no longer begins with it.
pub proof fn lemma_trim_prefix_leaves_no_prefix(s: Seq<char>, prefix: Seq<char>)
    requires
        prefix.len() > 0,
    ensures
        !starts_with_spec(trim_prefix_spec(s, prefix), prefix),
    decreases s.len(),
{
    if starts_with_spec(s, prefix) {
        lemma_trim_prefix_leaves_no_prefix(s.skip(prefix.len() as int), prefix);
    }
}

/// The ASCII digit for `d` (`d < 10`).
pub open spec fn digit_char(d: nat) -> char {
    (48 + d) as char
}

/// The decimal rendering of `n`, most significant digit first, no leading zeros.
pub open spec fn decimal_spec(n: nat) -> Seq<char>
    decreases n,
{
    if n < 10 {
        seq![digit_char(n)]
    } else {
        decimal_spec(n / 10).push(digit_char(n % 10))
    }
}

/// A decimal digit character `0`-`9`.
pub open spec fn is_decimal_digit(c: char) -> bool {
    '0' <= c && c <= '9'
}

/// The number that a text of decimal digits denotes, most significant
/// digit first.
pub open spec fn digits_value(s: Seq<char>) -> int
    decreases s.len(),
{
    if s.len() == 0 {
        0
    } else {
        digits_value(s.drop_last()) * 10 + (s.last() as int - 48)
    }
}

/// The decimal rendering of a number is a non-empty text of digits that
/// reads back as that number, without a leading zero unless it is `0`.
pub proof fn lemma_decimal_reads_back(n: nat)
    ensures
        decimal_spec(n).len() > 0,
        forall|i: int| 0 <= i < decimal_spec(n).len() ==> is_decimal_digit(#[trigger] decimal_spec(n)[i]),
        digits_value(decimal_spec(n)) == n,
        decimal_spec(n).len() > 1 ==> decimal_spec(n)[0] != '0',
    decreases n,
{
    let r = (n % 10) as nat;
    assert(digit_char(r) as int == 48 + r);
    let d = decimal_spec(n);
    if n < 10 {
        assert(d.drop_last() =~= Seq::<char>::empty());
        assert(digit_char(n) as int == 48 + n);
        assert(digits_value(d) == digits_value(d.drop_last()) * 10 + (d.last() as int - 48));
    } else {
        let q = (n / 10) as nat;
        lemma_decimal_reads_back(q);
        assert(d.drop_last() =~= decimal_spec(q));
        assert(d.last() == digit_char(r));
        assert(digits_value(d) == digits_value(d.drop_last()) * 10 + (d.last() as int - 48));
        assert(q * 10 + r == n);
        assert(d[0] == decimal_spec(q)[0]);
        if q < 10 {
            assert(digit_char(q) as int == 48 + q);
            assert(decimal_spec(q)[0] == digit_char(q));
        } else {
            lemma_decimal_reads_back((q / 10) as nat);
            assert(decimal_spec(q) == decimal_spec((q / 10) as nat).push(digit_char((q % 10) as nat)));
            assert(decimal_spec(q).len() > 1);
        }
    }
}

/// The lowercase hexadecimal digit for `n < 16`.
pub open spec fn hex_digit(n: int) -> char {
    if n < 10 {
        (48 + n) as char
    } else {
        (87 + n) as char
    }
}

/// Lowercase hexadecimal text of bytes, two digits per byte, high nibble first.
pub open spec fn hex_lower(data: Seq<u8>) -> Seq<char>
    decreases data.len(),
{
    if data.len() == 0 {
        Seq::empty()
    } else {
        seq![hex_digit(data[0] as int / 16), hex_digit(data[0] as int % 16)] + hex_lower(data.drop_first())
    }
}

/// What `str::to_lowercase` returns for a text (Unicode lowercase mapping).
pub uninterp spec fn lowercase_spec(s: Seq<char>) -> Seq<char>;

/// What `str::to_uppercase` returns for a text (Unicode uppercase mapping).
pub uninterp spec fn uppercase_spec(s: Seq<char>) -> Seq<char>;

/// A character with the Unicode property `White_Space`: tab, line feed,
/// vertical tab, form feed, carriage return, space, next line, no-break
/// space, Ogham space mark, the spaces U+2000 to U+200A, line separator,
/// paragraph separator, narrow no-break space, medium mathematical space and
/// ideographic space.
pub open spec fn is_white_space(c: char) -> bool {
    let u = c as u32;
    ||| 0x09 <= u <= 0x0d
    ||| u == 0x20
    ||| u == 0x85
    ||| u == 0xa0
    ||| u == 0x1680
    ||| 0x2000 <= u <= 0x200a
    ||| u == 0x2028
    ||| u == 0x2029
    ||| u == 0x202f
    ||| u == 0x205f
    ||| u == 0x3000
}

/// A text without its leading white space.
pub open spec fn trim_start_spec(s: Seq<char>) -> Seq<char>
    decreases s.len(),
{
    if s.len() > 0 && is_white_space(s[0]) {
        trim_start_spec(s.drop_first())
    } else {
        s
    }
}

/// A text without its trailing white space.
pub open spec fn trim_end_spec(s: Seq<char>) -> Seq<char>
    decreases s.len(),
{
    if s.len() > 0 && is_white_space(s.last()) {
        trim_end_spec(s.drop_last())
    } else {
        s
    }
}

/// A text without its leading and trailing white space.
pub open spec fn trim_spec(s: Seq<char>) -> Seq<char> {
    trim_end_spec(trim_start_spec(s))
}

// ---------------------------------------------------------------------------
// Calls into std that vstd leaves unspecified
// ---------------------------------------------------------------------------

/// `String::push`: appends one character.
#[verifier::external_body]
pub(crate) fn push_char(s: &mut String, c: char)
    ensures
        final(s)@ == old(s)@.push(c),
{
    s.push(c);
}

/// `str::to_lowercase`: the result is the Unicode lowercase mapping of the
/// argument, named `lowercase_spec`; the mapping itself is not written out.
#[verifier::external_body]
pub(crate) fn to_lowercase(s: &str) -> (res: String)
    ensures
        res@ == lowercase_spec(s@),
{
    s.to_lowercase()
}

/// `str::to_uppercase`: the result is the Unicode uppercase mapping of the
/// argument, named `uppercase_spec`; the mapping itself is not written out.
#[verifier::external_body]
pub(crate) fn to_uppercase(s: &str) -> (res: String)
    ensures
        res@ == uppercase_spec(s@),
{
    s.to_uppercase()
}

/// `str::trim`: the argument without leading and trailing white space, where
/// white space is what has the Unicode property `White_Space` (as the
/// documentation of `str::trim` and `char::is_whitespace` says).
#[verifier::external_body]
pub(crate) fn trim(s: &str) -> (res: String)
    ensures
        res@ == trim_spec(s@),
{
    s.trim().to_string()
}

// ---------------------------------------------------------------------------
// Verified helpers
// ---------------------------------------------------------------------------

/// The characters of `s`, in order.
pub fn chars_of(s: &str) -> (res: Vec<char>)
    ensures
        res@ == s@,
{
    let mut res: Vec<char> = Vec::new();
    for c in it: s.chars()
        invariant
            res@ == it.seq().take(it.index() as int),
            it.seq() == s@,
    {
        res.push(c);
    }
    res
}

/// Whether two texts are equal.
pub fn str_eq(a: &str, b: &str) -> (res: bool)
    ensures
        res == (a@ == b@),
{
    let x = a.to_owned();
    let y = b.to_owned();
    x == y
}

/// Whether `pat` occurs in `s` at character position `at`.
fn matches_at(s: &Vec<char>, pat: &Vec<char>, at: usize) -> (res: bool)
    requires
        at <= s@.len(),
    ensures
        res == starts_with_spec(s@.skip(at as int), pat@),
{
    if pat.len() > s.len() - at {
        return false;
    }
    let mut j: usize = 0;
    while j < pat.len()
        invariant
            at + pat@.len() <= s@.len(),
            s@.len() == s.len(),
            j <= pat@.len(),
            forall|k: int| 0 <= k < j ==> s@[at + k] == pat@[k],
        decreases pat@.len() - j,
    {
        if s[at + j] != pat[j] {
            assert(s@.skip(at as int).take(pat@.len() as int)[j as int] != pat@[j as int]);
            return false;
        }
        j = j + 1;
    }
    assert(s@.skip(at as int).take(pat@.len() as int) =~= pat@);
    true
}

/// Whether `s` begins with `prefix`.
pub fn starts_with(s: &str, prefix: &str) -> (res: bool)
    ensures
        res == starts_with_spec(s@, prefix@),
{
    let cs = chars_of(s);
    let ps = chars_of(prefix);
    let r = matches_at(&cs, &ps, 0);
    assert(s@.skip(0) =~= s@);
    r
}

/// Every non-overlapping occurrence of `pat` in `s`, from the left, replaced by `to`.
pub fn replace_all(s: &str, pat: &str, to: &str) -> (res: String)
    requires
        pat@.len() > 0,
    ensures
        res@ == replace_spec(s@, pat@, to@),
{
    let cs = chars_of(s);
    let ps = chars_of(pat);
    let mut res = String::new();
    let mut i: usize = 0;
    assert(s@.skip(0) =~= s@);
    while i < cs.len()
        invariant
            cs@ == s@,
            ps@ == pat@,
            pat@.len() > 0,
            i <= cs@.len(),
            res@ + replace_spec(s@.skip(i as int), pat@, to@) == replace_spec(s@, pat@, to@),
        decreases cs@.len() - i,
    {
        let ghost rest = s@.skip(i as int);
        if matches_at(&cs, &ps, i) {
            assert(rest.skip(pat@.len() as int) =~= s@.skip(i + pat@.len()));
            assert(replace_spec(rest, pat@, to@) == to@ + replace_spec(
                s@.skip(i + pat@.len()),
                pat@,
                to@,
            ));
            let ghost before = res@;
            res.append(to);
            assert(res@ + replace_spec(s@.skip(i + pat@.len()), pat@, to@) =~= before + (to@
                + replace_spec(s@.skip(i + pat@.len()), pat@, to@)));
            i = i + ps.len();
        } else {
            assert(rest.skip(1) =~= s@.skip(i + 1));
            assert(replace_spec(rest, pat@, to@) == seq![cs@[i as int]] + replace_spec(
                s@.skip(i + 1),
                pat@,
                to@,
            ));
            let ghost before = res@;
            push_char(&mut res, cs[i]);
            assert(res@ + replace_spec(s@.skip(i + 1), pat@, to@) =~= before + (seq![cs@[i as int]]
                + replace_spec(s@.skip(i + 1), pat@, to@)));
            i = i + 1;
        }
    }
    assert(s@.skip(cs@.len() as int) =~= Seq::<char>::empty());
    res
}

/// `s` with `prefix` removed from its front repeatedly (`str::trim_start_matches`).
pub fn trim_prefix(s: &str, prefix: &str) -> (res: String)
    ensures
        res@ == trim_prefix_spec(s@, prefix@),
{
    let cs = chars_of(s);
    let ps = chars_of(prefix);
    let mut i: usize = 0;
    assert(s@.skip(0) =~= s@);
    if ps.len() > 0 {
        loop
            invariant
                cs@ == s@,
                ps@ == prefix@,
                prefix@.len() > 0,
                i <= cs@.len(),
                trim_prefix_spec(s@.skip(i as int), prefix@) == trim_prefix_spec(s@, prefix@),
            ensures
                i <= cs@.len(),
                trim_prefix_spec(s@.skip(i as int), prefix@) == trim_prefix_spec(s@, prefix@),
                !starts_with_spec(s@.skip(i as int), prefix@),
            decreases cs@.len() - i,
        {
            let m = matches_at(&cs, &ps, i);
            if !m {
                break;
            }
            assert(ps@.len() <= s@.skip(i as int).len());
            assert(i + ps.len() <= cs.len());
            assert(s@.skip(i as int).skip(prefix@.len() as int) =~= s@.skip(i + prefix@.len()));
            i = i + ps.len();
        }
    }
    assert(trim_prefix_spec(s@.skip(i as int), prefix@) == s@.skip(i as int));
    let mut res = String::new();
    let mut j: usize = i;
    while j < cs.len()
        invariant
            cs@ == s@,
            i <= j <= cs@.len(),
            res@ == s@.subrange(i as int, j as int),
        decreases cs@.len() - j,
    {
        push_char(&mut res, cs[j]);
        assert(s@.subrange(i as int, j as int).push(s@[j as int]) =~= s@.subrange(
            i as int,
            j + 1,
        ));
        j = j + 1;
    }
    assert(res@ =~= s@.skip(i as int));
    res
}

/// Appends the decimal rendering of `n` to `out`.
pub fn push_decimal(out: &mut String, n: u64)
    ensures
        final(out)@ == old(out)@ + decimal_spec(n as nat),
    decreases n,
{
    if n >= 10 {
        push_decimal(out, n / 10);
    }
    let d: u8 = (n % 10) as u8;
    let c: char = (48u8 + d) as char;
    push_char(out, c);
    assert(c == digit_char((n % 10) as nat));
    if n >= 10 {
        assert(decimal_spec(n as nat) == decimal_spec((n / 10) as nat).push(digit_char((n % 10) as nat)));
    }
}

/// Whether some item equals `name` once both are lowercased.
pub fn contains_ignoring_case(items: &[String], name: &str) -> (res: bool)
    ensures
        res == exists|i: int|
            0 <= i < items@.len() && #[trigger] lowercase_spec(items@[i]@) == lowercase_spec(name@),
{
    let name_lower = to_lowercase(name);
    for i in 0..items.len()
        invariant
            name_lower@ == lowercase_spec(name@),
            forall|j: int|
                0 <= j < i ==> #[trigger] lowercase_spec(items@[j]@) != lowercase_spec(name@),
    {
        let item_lower = to_lowercase(items[i].as_str());
        if item_lower == name_lower {
            return true;
        }
    }
    false
}

} // verus!
