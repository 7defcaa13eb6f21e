//! UTF-16 text conversions used at the Windows API boundary.

use vstd::prelude::*;

verus! {

/// The code units that UTF-16 uses for one Unicode scalar value.
pub open spec fn utf16_units_of_char(c: char) -> Seq<u16> {
    let v = c as int;
    if v < 0x10000 {
        seq![v as u16]
    } else {
        seq![(0xD800 + (v - 0x10000) / 0x400) as u16, (0xDC00 + (v - 0x10000) % 0x400) as u16]
    }
}

/// UTF-16 encoding of a character sequence.
pub open spec fn utf16_encode(s: Seq<char>) -> Seq<u16>
    decreases s.len(),
{
    if s.len() == 0 {
        Seq::empty()
    } else {
        utf16_encode(s.drop_last()) + utf16_units_of_char(s.last())
    }
}

pub open spec fn is_high_surrogate(u: u16) -> bool {
    0xD800 <= u <= 0xDBFF
}

pub open spec fn is_low_surrogate(u: u16) -> bool {
    0xDC00 <= u <= 0xDFFF
}

/// Lossy UTF-16 decoding: a well-formed surrogate pair becomes one character,
/// every unpaired surrogate becomes U+FFFD, every other unit is its own character.
pub open spec fn utf16_decode_lossy(units: Seq<u16>) -> Seq<char>
    decreases units.len(),
{
    if units.len() == 0 {
        Seq::empty()
    } else if is_high_surrogate(units[0]) && units.len() > 1 && is_low_surrogate(units[1]) {
        seq![(0x10000 + (units[0] - 0xD800) * 0x400 + (units[1] - 0xDC00)) as char]
            + utf16_decode_lossy(units.skip(2))
    } else if is_high_surrogate(units[0]) || is_low_surrogate(units[0]) {
        seq!['\u{FFFD}'] + utf16_decode_lossy(units.skip(1))
    } else {
        seq![units[0] as char] + utf16_decode_lossy(units.skip(1))
    }
}

proof fn lemma_char_round_trip(c: char, rest: Seq<u16>)
    ensures
        utf16_decode_lossy(utf16_units_of_char(c) + rest) == seq![c] + utf16_decode_lossy(rest),
{
    let u = utf16_units_of_char(c) + rest;
    let v = c as int;
    if v < 0x10000 {
        assert(u.skip(1) =~= rest);
        assert((v as u16) as char == c);
    } else {
        assert(u.skip(2) =~= rest);
    }
}

proof fn lemma_encode_concat(a: Seq<char>, b: Seq<char>)
    ensures
        utf16_encode(a + b) == utf16_encode(a) + utf16_encode(b),
    decreases b.len(),
{
    if b.len() == 0 {
        assert(a + b =~= a);
        assert(utf16_encode(a) + utf16_encode(b) =~= utf16_encode(a));
    } else {
        lemma_encode_concat(a, b.drop_last());
        assert((a + b).drop_last() =~= a + b.drop_last());
        assert((a + b).last() == b.last());
        assert(utf16_encode(a + b) =~= utf16_encode(a) + utf16_encode(b));
    }
}

proof fn lemma_decode_after_encode(s: Seq<char>, rest: Seq<u16>)
    ensures
        utf16_decode_lossy(utf16_encode(s) + rest) == s + utf16_decode_lossy(rest),
    decreases s.len(),
{
    if s.len() == 0 {
        assert(utf16_encode(s) =~= Seq::<u16>::empty());
        assert(utf16_encode(s) + rest =~= rest);
        assert(s + utf16_decode_lossy(rest) =~= utf16_decode_lossy(rest));
    } else {
        let t = s.drop_first();
        lemma_decode_after_encode(t, rest);
        assert(s =~= seq![s[0]] + t);
        lemma_encode_concat(seq![s[0]], t);
        let one = seq![s[0]];
        assert(one.drop_last() =~= Seq::<char>::empty());
        assert(one.last() == s[0]);
        assert(utf16_encode(Seq::<char>::empty()) =~= Seq::<u16>::empty());
        assert(utf16_encode(one) =~= utf16_units_of_char(s[0]));
        lemma_char_round_trip(s[0], utf16_encode(t) + rest);
        assert(utf16_encode(s) + rest =~= utf16_units_of_char(s[0]) + (utf16_encode(t) + rest));
        assert(s + utf16_decode_lossy(rest) =~= seq![s[0]] + (t + utf16_decode_lossy(rest)));
    }
}

/// Decoding what `utf16_encode` produced gives back the original characters:
/// the wide strings handed to Windows lose nothing.
pub proof fn lemma_utf16_round_trip(s: Seq<char>)
    ensures
        utf16_decode_lossy(utf16_encode(s)) == s,
{
    lemma_decode_after_encode(s, Seq::empty());
    assert(utf16_encode(s) + Seq::<u16>::empty() =~= utf16_encode(s));
    assert(utf16_decode_lossy(Seq::<u16>::empty()) =~= Seq::<char>::empty());
    assert(s + Seq::<char>::empty() =~= s);
}

/// NUL units decode to NUL characters.
proof fn lemma_decode_nuls(n: nat)
    ensures
        utf16_decode_lossy(Seq::new(n, |i: int| 0u16)) == Seq::new(n, |i: int| '\0'),
    decreases n,
{
    let u = Seq::new(n, |i: int| 0u16);
    if n > 0 {
        lemma_decode_nuls((n - 1) as nat);
        assert(u.skip(1) =~= Seq::new((n - 1) as nat, |i: int| 0u16));
        assert((0u16 as int) as char == '\0');
        assert(Seq::new(n, |i: int| '\0') =~= seq!['\0'] + Seq::new((n - 1) as nat, |i: int| '\0'));
    } else {
        assert(u =~= Seq::<u16>::empty());
        assert(Seq::new(n, |i: int| '\0') =~= Seq::<char>::empty());
    }
}

proof fn lemma_strip_appended_nuls(s: Seq<char>, n: nat)
    requires
        s.len() == 0 || s.last() != '\0',
    ensures
        strip_trailing_nul(s + Seq::new(n, |i: int| '\0')) == s,
    decreases n,
{
    let t = s + Seq::new(n, |i: int| '\0');
    if n == 0 {
        assert(t =~= s);
    } else {
        lemma_strip_appended_nuls(s, (n - 1) as nat);
        assert(t.drop_last() =~= s + Seq::new((n - 1) as nat, |i: int| '\0'));
    }
}

/// A name written NUL-padded into a fixed UTF-16 buffer, as Windows reports a
/// monitor's friendly name, reads back unchanged once decoded and stripped of
/// its padding, provided the name itself does not end in NUL.
pub proof fn lemma_padded_name_round_trip(name: Seq<char>, padding: nat)
    requires
        name.len() == 0 || name.last() != '\0',
    ensures
        strip_trailing_nul(utf16_decode_lossy(utf16_encode(name) + Seq::new(padding, |i: int| 0u16)))
            == name,
{
    lemma_decode_after_encode(name, Seq::new(padding, |i: int| 0u16));
    lemma_decode_nuls(padding);
    lemma_strip_appended_nuls(name, padding);
}

/// Stripping leaves no trailing NUL, keeps a prefix of the text, and removes
/// nothing but NULs.
pub proof fn lemma_strip_trailing_nul(s: Seq<char>)
    ensures
        ({
            let r = strip_trailing_nul(s);
            &&& r.len() == 0 || r.last() != '\0'
            &&& r.len() <= s.len()
            &&& r == s.take(r.len() as int)
            &&& forall|j: int| r.len() <= j < s.len() ==> s[j] == '\0'
        }),
    decreases s.len(),
{
    if s.len() > 0 && s.last() == '\0' {
        lemma_strip_trailing_nul(s.drop_last());
        let r = strip_trailing_nul(s);
        let d = s.drop_last();
        assert(r == strip_trailing_nul(d));
        assert(d.take(r.len() as int) =~= s.take(r.len() as int));
        assert forall|j: int| r.len() <= j < s.len() implies s[j] == '\0' by {
            if j < d.len() {
                assert(d[j] == s[j]);
            }
        }
    } else {
        assert(s.take(s.len() as int) =~= s);
    }
}

/// Appends the UTF-16 code units of `c` to `out`.
fn push_utf16_units(out: &mut Vec<u16>, c: char)
    ensures
        final(out)@ == old(out)@ + utf16_units_of_char(c),
{
    let v = c as u32;
    if v < 0x10000 {
        out.push(v as u16);
    } else {
        let offset = v - 0x10000;
        out.push((0xD800 + offset / 0x400) as u16);
        out.push((0xDC00 + offset % 0x400) as u16);
    }
}

/// Encodes `s` as UTF-16 followed by one NUL unit, the form that wide-character
/// Windows APIs expect.
pub fn to_wide_nul(s: &str) -> (res: Vec<u16>)
    ensures
        res@ == utf16_encode(s@).push(0u16),
{
    let n = s.unicode_len();
    let mut out: Vec<u16> = Vec::new();
    let mut i: usize = 0;
    while i < n
        invariant
            n == s@.len(),
            i <= n,
            out@ == utf16_encode(s@.take(i as int)),
        decreases n - i,
    {
        let c = s.get_char(i);
        proof {
            let next = s@.take(i + 1);
            assert(next.drop_last() =~= s@.take(i as int));
            assert(next.last() == c);
        }
        push_utf16_units(&mut out, c);
        i = i + 1;
    }
    assert(s@.take(n as int) =~= s@);
    out.push(0u16);
    out
}

/// Decodes UTF-16 units with `widestring`, replacing unpaired surrogates by U+FFFD.
///
/// Trusted: `widestring::U16String::from_vec` followed by `to_string_lossy`, which the
/// crate implements as `String::from_utf16_lossy`; the contract states that decoding
/// as `utf16_decode_lossy`.
#[verifier::external_body]
pub(crate) fn decode_wide_lossy(units: &Vec<u16>) -> (res: String)
    ensures
        res@ == utf16_decode_lossy(units@),
{
    widestring::U16String::from_vec(units.clone()).to_string_lossy()
}

/// `s` without its trailing NUL characters.
pub open spec fn strip_trailing_nul(s: Seq<char>) -> Seq<char>
    decreases s.len(),
{
    if s.len() > 0 && s.last() == '\0' {
        strip_trailing_nul(s.drop_last())
    } else {
        s
    }
}

proof fn lemma_strip_trailing_nul_take(s: Seq<char>, k: int)
    requires
        0 <= k <= s.len(),
        forall|j: int| k <= j < s.len() ==> s[j] == '\0',
        k == 0 || s[k - 1] != '\0',
    ensures
        strip_trailing_nul(s) == s.take(k),
    decreases s.len() - k,
{
    if k == s.len() {
        assert(s.take(k) =~= s);
    } else {
        lemma_strip_trailing_nul_take(s.drop_last(), k);
        assert(s.drop_last().take(k) =~= s.take(k));
    }
}

/// Removes every trailing NUL character, as `str::trim_end_matches("\0")` does.
pub fn trim_trailing_nul(s: &str) -> (res: String)
    ensures
        res@ == strip_trailing_nul(s@),
{
    let n = s.unicode_len();
    let mut k: usize = n;
    while k > 0 && s.get_char(k - 1) == '\0'
        invariant
            n == s@.len(),
            k <= n,
            forall|j: int| k <= j < n ==> s@[j] == '\0',
        decreases k,
    {
        k = k - 1;
    }
    proof {
        lemma_strip_trailing_nul_take(s@, k as int);
    }
    let kept = s.substring_char(0, k);
    assert(s@.subrange(0, k as int) =~= s@.take(k as int));
    String::from_str(kept)
}

/// The characters with the Unicode `White_Space` property, the set that
/// `char::is_whitespace` and `str::trim` use.
pub open spec fn is_unicode_whitespace(c: char) -> bool {
    let v = c as int;
    ||| 0x09 <= v <= 0x0D
    ||| v == 0x20
    ||| v == 0x85
    ||| v == 0xA0
    ||| v == 0x1680
    ||| 0x2000 <= v <= 0x200A
    ||| v == 0x2028
    ||| v == 0x2029
    ||| v == 0x202F
    ||| v == 0x205F
    ||| v == 0x3000
}

/// `s` without its leading whitespace.
pub open spec fn trim_start_ws(s: Seq<char>) -> Seq<char>
    decreases s.len(),
{
    if s.len() > 0 && is_unicode_whitespace(s[0]) {
        trim_start_ws(s.drop_first())
    } else {
        s
    }
}

/// `s` without its trailing whitespace.
pub open spec fn trim_end_ws(s: Seq<char>) -> Seq<char>
    decreases s.len(),
{
    if s.len() > 0 && is_unicode_whitespace(s.last()) {
        trim_end_ws(s.drop_last())
    } else {
        s
    }
}

/// `s` without leading and trailing whitespace, as `str::trim` returns it.
pub open spec fn trim_ws(s: Seq<char>) -> Seq<char> {
    trim_end_ws(trim_start_ws(s))
}

proof fn lemma_trim_start_ws(s: Seq<char>)
    ensures
        trim_start_ws(s).len() == 0 || !is_unicode_whitespace(trim_start_ws(s)[0]),
        exists|a: int| 0 <= a <= s.len() && trim_start_ws(s) == s.skip(a),
    decreases s.len(),
{
    if s.len() > 0 && is_unicode_whitespace(s[0]) {
        lemma_trim_start_ws(s.drop_first());
        let a = choose|a: int| 0 <= a <= s.drop_first().len() && trim_start_ws(s.drop_first()) == s.drop_first().skip(a);
        assert(s.drop_first().skip(a) =~= s.skip(a + 1));
    } else {
        assert(s.skip(0) =~= s);
    }
}

proof fn lemma_trim_end_ws(s: Seq<char>)
    ensures
        trim_end_ws(s).len() == 0 || !is_unicode_whitespace(trim_end_ws(s).last()),
        exists|b: int| 0 <= b <= s.len() && trim_end_ws(s) == s.take(b),
    decreases s.len(),
{
    if s.len() > 0 && is_unicode_whitespace(s.last()) {
        lemma_trim_end_ws(s.drop_last());
        let b = choose|b: int| 0 <= b <= s.drop_last().len() && trim_end_ws(s.drop_last()) == s.drop_last().take(b);
        assert(s.drop_last().take(b) =~= s.take(b));
    } else {
        assert(s.take(s.len() as int) =~= s);
    }
}

/// A trimmed text neither starts nor ends with whitespace, and trimming it
/// again changes nothing.
pub proof fn lemma_trim_ws(s: Seq<char>)
    ensures
        trim_ws(s).len() == 0 || !is_unicode_whitespace(trim_ws(s)[0]),
        trim_ws(s).len() == 0 || !is_unicode_whitespace(trim_ws(s).last()),
        trim_ws(trim_ws(s)) == trim_ws(s),
{
    let t = trim_start_ws(s);
    lemma_trim_start_ws(s);
    lemma_trim_end_ws(t);
    let r = trim_end_ws(t);
    let b = choose|b: int| 0 <= b <= t.len() && r == t.take(b);
    if r.len() > 0 {
        assert(r[0] == t[0]);
    }
    assert(trim_start_ws(r) == r);
    assert(trim_end_ws(r) == r);
}

/// Trimming removes only whitespace, and only at the two ends, for texts of any
/// length: when every character before `a` and from `b` on is whitespace, and the
/// characters at `a` and `b - 1` are not, the trimmed text is `s[a..b]`; a text
/// of whitespace only trims to nothing.
pub proof fn lemma_trim_keeps_inner_text(s: Seq<char>, a: int, b: int)
    requires
        0 <= a <= b <= s.len(),
        forall|j: int| 0 <= j < a ==> is_unicode_whitespace(#[trigger] s[j]),
        forall|j: int| b <= j < s.len() ==> is_unicode_whitespace(#[trigger] s[j]),
        a < b ==> !is_unicode_whitespace(s[a]) && !is_unicode_whitespace(s[b - 1]),
    ensures
        trim_ws(s) == s.subrange(a, b),
{
    if a < b {
        lemma_trim_start_skip(s, a);
        let t = s.skip(a);
        lemma_trim_end_take(t, b - a);
        assert(t.take(b - a) =~= s.subrange(a, b));
    } else {
        let n = s.len() as int;
        assert forall|j: int| 0 <= j < n implies is_unicode_whitespace(#[trigger] s[j]) by {}
        lemma_trim_start_skip(s, n);
        let t = s.skip(n);
        assert(t =~= Seq::<char>::empty());
        lemma_trim_end_take(t, 0);
        assert(t.take(0) =~= s.subrange(a, b));
    }
}

/// Whether `c` is Unicode whitespace.
pub fn is_whitespace_char(c: char) -> (res: bool)
    ensures
        res == is_unicode_whitespace(c),
{
    let v = c as u32;
    (0x09 <= v && v <= 0x0D) || v == 0x20 || v == 0x85 || v == 0xA0 || v == 0x1680 || (0x2000
        <= v && v <= 0x200A) || v == 0x2028 || v == 0x2029 || v == 0x202F || v == 0x205F || v
        == 0x3000
}

proof fn lemma_trim_start_skip(s: Seq<char>, a: int)
    requires
        0 <= a <= s.len(),
        forall|j: int| 0 <= j < a ==> is_unicode_whitespace(s[j]),
        a == s.len() || !is_unicode_whitespace(s[a]),
    ensures
        trim_start_ws(s) == s.skip(a),
    decreases a,
{
    if a == 0 {
        assert(s.skip(0) =~= s);
    } else {
        lemma_trim_start_skip(s.drop_first(), a - 1);
        assert(s.drop_first().skip(a - 1) =~= s.skip(a));
    }
}

proof fn lemma_trim_end_take(s: Seq<char>, k: int)
    requires
        0 <= k <= s.len(),
        forall|j: int| k <= j < s.len() ==> is_unicode_whitespace(s[j]),
        k == 0 || !is_unicode_whitespace(s[k - 1]),
    ensures
        trim_end_ws(s) == s.take(k),
    decreases s.len() - k,
{
    if k == s.len() {
        assert(s.take(k) =~= s);
    } else {
        lemma_trim_end_take(s.drop_last(), k);
        assert(s.drop_last().take(k) =~= s.take(k));
    }
}

/// Removes leading and trailing Unicode whitespace, as `str::trim` does.
pub fn trim_whitespace(s: &str) -> (res: String)
    ensures
        res@ == trim_ws(s@),
{
    let n = s.unicode_len();
    let mut a: usize = 0;
    while a < n && is_whitespace_char(s.get_char(a))
        invariant
            n == s@.len(),
            a <= n,
            forall|j: int| 0 <= j < a ==> is_unicode_whitespace(s@[j]),
        decreases n - a,
    {
        a = a + 1;
    }
    let mut b: usize = n;
    while b > a && is_whitespace_char(s.get_char(b - 1))
        invariant
            n == s@.len(),
            a <= b <= n,
            forall|j: int| b <= j < n ==> is_unicode_whitespace(s@[j]),
            a == n || !is_unicode_whitespace(s@[a as int]),
        decreases b,
    {
        b = b - 1;
    }
    proof {
        lemma_trim_start_skip(s@, a as int);
        let t = s@.skip(a as int);
        lemma_trim_end_take(t, (b - a) as int);
        assert(t.take((b - a) as int) =~= s@.subrange(a as int, b as int));
    }
    String::from_str(s.substring_char(a, b))
}

} // verus!
