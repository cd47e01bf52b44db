//! Text positions in UTF-8 strings, and the text primitives the form editor and
//! the profile search rely on.
//!
//! A `String` is viewed as its sequence of characters. Cursor positions of the
//! form editor, like the positions `String::insert` and `String::remove` take,
//! are byte offsets into the UTF-8 encoding of that sequence.
use vstd::prelude::*;
use vstd::utf8::*;

verus! {

broadcast use vstd::utf8::encode_utf8_valid_utf8;

/// Number of bytes of the UTF-8 encoding of `s`.
pub open spec fn byte_len(s: Seq<char>) -> nat {
    encode_utf8(s).len()
}

/// Number of bytes that `c` takes in UTF-8.
pub open spec fn char_width(c: char) -> nat {
    encode_scalar(c as u32).len()
}

/// Byte offset at which the character with index `k` of `s` starts
/// (`byte_len(s)` for `k == s.len()`).
pub open spec fn byte_offset(s: Seq<char>, k: int) -> nat {
    byte_len(s.take(k))
}

/// `pos` is a byte offset of `s` at which a character starts, or the end of `s`.
pub open spec fn on_char_boundary(s: Seq<char>, pos: int) -> bool {
    is_char_boundary(encode_utf8(s), pos)
}

/// Index of the character that starts at byte offset `pos` of `s`.
pub open spec fn char_index_at(s: Seq<char>, pos: int) -> int {
    choose|k: int| 0 <= k <= s.len() && byte_offset(s, k) == pos
}

/// Every character of `s` is ASCII.
pub open spec fn all_ascii(s: Seq<char>) -> bool {
    forall|i: int| 0 <= i < s.len() ==> (#[trigger] s[i] as u32) < 128
}

pub proof fn lemma_char_width(c: char)
    ensures
        1 <= char_width(c) <= 4,
        (c as u32) < 128 ==> char_width(c) == 1,
{
}

pub proof fn lemma_encode_single(c: char)
    ensures
        encode_utf8(seq![c]) == encode_scalar(c as u32),
{
    reveal_with_fuel(encode_utf8, 2);
    assert(seq![c].drop_first() =~= Seq::<char>::empty());
    assert(encode_scalar(c as u32) + Seq::<u8>::empty() =~= encode_scalar(c as u32));
}

/// Encoding a concatenation concatenates the encodings.
pub proof fn lemma_encode_concat(a: Seq<char>, b: Seq<char>)
    ensures
        encode_utf8(a + b) == encode_utf8(a) + encode_utf8(b),
    decreases a.len(),
{
    if a.len() == 0 {
        assert(a + b =~= b);
        assert(encode_utf8(a) =~= Seq::<u8>::empty());
        assert(Seq::<u8>::empty() + encode_utf8(b) =~= encode_utf8(b));
    } else {
        lemma_encode_concat(a.drop_first(), b);
        assert((a + b).drop_first() =~= a.drop_first() + b);
        assert((a + b)[0] == a[0]);
        let e = encode_scalar(a[0] as u32);
        assert(encode_utf8(a + b) == e + encode_utf8(a.drop_first() + b));
        assert(encode_utf8(a) == e + encode_utf8(a.drop_first()));
        assert(e + (encode_utf8(a.drop_first()) + encode_utf8(b)) =~= (e + encode_utf8(
            a.drop_first(),
        )) + encode_utf8(b));
    }
}

pub proof fn lemma_byte_len_concat(a: Seq<char>, b: Seq<char>)
    ensures
        byte_len(a + b) == byte_len(a) + byte_len(b),
{
    lemma_encode_concat(a, b);
}

/// Going over one character moves the byte offset by that character's width.
pub proof fn lemma_offset_step(s: Seq<char>, k: int)
    requires
        0 <= k < s.len(),
    ensures
        byte_offset(s, k + 1) == byte_offset(s, k) + char_width(s[k]),
{
    assert(s.take(k + 1) =~= s.take(k) + seq![s[k]]);
    lemma_byte_len_concat(s.take(k), seq![s[k]]);
    lemma_encode_single(s[k]);
}

pub proof fn lemma_offset_zero_and_end(s: Seq<char>)
    ensures
        byte_offset(s, 0) == 0,
        byte_offset(s, s.len() as int) == byte_len(s),
{
    assert(s.take(0) =~= Seq::<char>::empty());
    assert(s.take(s.len() as int) =~= s);
}

/// Byte offsets grow strictly with the character index.
pub proof fn lemma_offset_strictly_increasing(s: Seq<char>, j: int, k: int)
    requires
        0 <= j < k <= s.len(),
    ensures
        byte_offset(s, j) < byte_offset(s, k),
    decreases k - j,
{
    lemma_offset_step(s, k - 1);
    lemma_char_width(s[k - 1]);
    if j < k - 1 {
        lemma_offset_strictly_increasing(s, j, k - 1);
    }
}

/// On a character sequence, a boundary in the UTF-8 sense is exactly a byte
/// offset at which some character index starts.
pub proof fn lemma_boundary_is_offset(s: Seq<char>, pos: int)
    ensures
        on_char_boundary(s, pos) <==> exists|k: int| 0 <= k <= s.len() && byte_offset(s, k) == pos,
    decreases s.len(),
{
    lemma_offset_zero_and_end(s);
    if pos == 0 {
        assert(byte_offset(s, 0) == pos);
    } else if pos < 0 || byte_len(s) < pos {
        if exists|k: int| 0 <= k <= s.len() && byte_offset(s, k) == pos {
            let k = choose|k: int| 0 <= k <= s.len() && byte_offset(s, k) == pos;
            if k < s.len() {
                lemma_offset_strictly_increasing(s, k, s.len() as int);
            }
        }
    } else {
        // pos > 0 and pos <= byte_len(s), so s is not empty
        assert(s.len() > 0) by {
            if s.len() == 0 {
                assert(encode_utf8(s) =~= Seq::<u8>::empty());
            }
        }
        let t = s.drop_first();
        let w = char_width(s[0]);
        encode_utf8_first_scalar(s);
        assert(pop_first_scalar(encode_utf8(s)) =~= encode_utf8(t));
        lemma_boundary_is_offset(t, pos - w);
        assert(on_char_boundary(s, pos) == on_char_boundary(t, pos - w));
        assert forall|k: int| 0 <= k <= t.len() implies #[trigger] byte_offset(s, k + 1) == w
            + byte_offset(t, k) by {
            assert(s.take(k + 1) =~= seq![s[0]] + t.take(k));
            lemma_byte_len_concat(seq![s[0]], t.take(k));
            lemma_encode_single(s[0]);
        }
        if on_char_boundary(s, pos) {
            let k = choose|k: int| 0 <= k <= t.len() && byte_offset(t, k) == pos - w;
            assert(byte_offset(s, k + 1) == pos);
        }
        if exists|k: int| 0 <= k <= s.len() && byte_offset(s, k) == pos {
            let k = choose|k: int| 0 <= k <= s.len() && byte_offset(s, k) == pos;
            assert(k != 0);
            assert(byte_offset(s, (k - 1) + 1) == w + byte_offset(t, k - 1));
            assert(0 <= k - 1 <= t.len() && byte_offset(t, k - 1) == pos - w);
        }
    }
}

/// At a boundary, `char_index_at` names the one character index that starts there.
pub proof fn lemma_char_index_at(s: Seq<char>, pos: int)
    requires
        on_char_boundary(s, pos),
    ensures
        0 <= char_index_at(s, pos) <= s.len(),
        byte_offset(s, char_index_at(s, pos)) == pos,
        forall|k: int| 0 <= k <= s.len() && byte_offset(s, k) == pos ==> k == char_index_at(s, pos),
{
    lemma_boundary_is_offset(s, pos);
    let k0 = char_index_at(s, pos);
    assert forall|k: int| 0 <= k <= s.len() && byte_offset(s, k) == pos implies k == k0 by {
        if k < k0 {
            lemma_offset_strictly_increasing(s, k, k0);
        } else if k0 < k {
            lemma_offset_strictly_increasing(s, k0, k);
        }
    }
}

/// A boundary lies between the start and the end of the encoding.
pub proof fn lemma_boundary_within(s: Seq<char>, pos: int)
    requires
        on_char_boundary(s, pos),
    ensures
        0 <= pos <= byte_len(s),
{
    lemma_char_index_at(s, pos);
    lemma_offset_zero_and_end(s);
    let k = char_index_at(s, pos);
    if k < s.len() {
        lemma_offset_strictly_increasing(s, k, s.len() as int);
    }
}

/// The character index `k` starts at byte offset `byte_offset(s, k)`.
pub proof fn lemma_offset_is_boundary(s: Seq<char>, k: int)
    requires
        0 <= k <= s.len(),
    ensures
        on_char_boundary(s, byte_offset(s, k) as int),
        char_index_at(s, byte_offset(s, k) as int) == k,
{
    lemma_boundary_is_offset(s, byte_offset(s, k) as int);
    lemma_char_index_at(s, byte_offset(s, k) as int);
}

/// In an ASCII sequence every byte offset up to the end is a boundary, and
/// character index and byte offset coincide.
pub proof fn lemma_ascii_offsets(s: Seq<char>, pos: int)
    requires
        all_ascii(s),
        0 <= pos <= s.len(),
    ensures
        byte_offset(s, pos) == pos,
        on_char_boundary(s, pos),
        char_index_at(s, pos) == pos,
        byte_len(s) == s.len(),
{
    lemma_ascii_len(s, pos);
    lemma_ascii_len(s, s.len() as int);
    lemma_offset_zero_and_end(s);
    lemma_offset_is_boundary(s, pos);
}

proof fn lemma_ascii_len(s: Seq<char>, k: int)
    requires
        all_ascii(s),
        0 <= k <= s.len(),
    ensures
        byte_offset(s, k) == k,
    decreases k,
{
    lemma_offset_zero_and_end(s);
    if k > 0 {
        lemma_ascii_len(s, k - 1);
        lemma_offset_step(s, k - 1);
        lemma_char_width(s[k - 1]);
    }
}


// ---------------------------------------------------------------------------
// Editing a String at a byte position
// ---------------------------------------------------------------------------

/// `String::insert`: inserts `ch` at byte position `idx`. The documentation
/// states that it panics when `idx` is past the end or not on a character
/// boundary; this contract admits only boundaries, where the character lands
/// before the character that started at `idx`.
#[verifier::external_body]
pub(crate) fn string_insert(s: &mut String, idx: usize, ch: char)
    requires
        on_char_boundary(old(s)@, idx as int),
    ensures
        final(s)@ == old(s)@.take(char_index_at(old(s)@, idx as int)).push(ch) + old(s)@.skip(
            char_index_at(old(s)@, idx as int),
        ),
{
    s.insert(idx, ch)
}

/// `String::remove`: removes and returns the character that starts at byte
/// position `idx`. The documentation states that it panics when `idx` is at or
/// past the end or not on a character boundary; this contract admits only the
/// start of a character.
#[verifier::external_body]
pub(crate) fn string_remove(s: &mut String, idx: usize) -> (removed: char)
    requires
        on_char_boundary(old(s)@, idx as int),
        idx < byte_len(old(s)@),
    ensures
        removed == old(s)@[char_index_at(old(s)@, idx as int)],
        final(s)@ == old(s)@.remove(char_index_at(old(s)@, idx as int)),
{
    s.remove(idx)
}

// ---------------------------------------------------------------------------
// Case folding and substring search
// ---------------------------------------------------------------------------

/// The lowercase equivalent of a character sequence, as `str::to_lowercase`
/// computes it from the Unicode case tables.
pub uninterp spec fn lowercase(s: Seq<char>) -> Seq<char>;

/// `str::to_lowercase`: the lowercase equivalent of `s` as a new `String`. The
/// result is named by `lowercase`; its table-driven definition is not restated.
#[verifier::external_body]
pub(crate) fn to_lowercase(s: &str) -> (lower: String)
    ensures
        lower@ == lowercase(s@),
{
    s.to_lowercase()
}

/// `needle` occurs as a contiguous run of characters in `hay`.
pub open spec fn has_substring(hay: Seq<char>, needle: Seq<char>) -> bool {
    exists|i: int|
        0 <= i && i + needle.len() <= hay.len() && #[trigger] hay.subrange(i, i + needle.len())
            == needle
}

/// `str::contains` with a string pattern: true exactly when `needle` matches a
/// sub-slice of `hay`.
#[verifier::external_body]
pub(crate) fn str_contains(hay: &str, needle: &str) -> (found: bool)
    ensures
        found == has_substring(hay@, needle@),
{
    hay.contains(needle)
}

pub proof fn lemma_empty_is_substring(hay: Seq<char>)
    ensures
        has_substring(hay, Seq::<char>::empty()),
{
    let e = Seq::<char>::empty();
    assert(hay.subrange(0, 0int + e.len()) =~= e);
}

// ---------------------------------------------------------------------------
// Decimal numbers
// ---------------------------------------------------------------------------

pub open spec fn is_digit(c: char) -> bool {
    '0' <= c <= '9'
}

pub open spec fn digit_value(c: char) -> nat {
    ((c as u32) - ('0' as u32)) as nat
}

pub open spec fn digit_char(d: nat) -> char {
    (d + ('0' as u32)) as char
}

pub open spec fn all_digits(s: Seq<char>) -> bool {
    forall|i: int| 0 <= i < s.len() ==> is_digit(#[trigger] s[i])
}

/// The number that a run of decimal digits denotes.
pub open spec fn digits_value(s: Seq<char>) -> nat
    decreases s.len(),
{
    if s.len() == 0 {
        0
    } else {
        digits_value(s.drop_last()) * 10 + digit_value(s.last())
    }
}

/// The text that `u32::from_str` accepts: an optional `+` followed by one or
/// more decimal digits whose value fits in a `u32`; anything else is refused.
pub open spec fn parse_u32_spec(s: Seq<char>) -> Option<u32> {
    let body = if s.len() > 0 && s[0] == '+' {
        s.drop_first()
    } else {
        s
    };
    if body.len() > 0 && all_digits(body) && digits_value(body) <= u32::MAX {
        Some(digits_value(body) as u32)
    } else {
        None
    }
}

/// The shortest decimal representation of `n`.
pub open spec fn decimal(n: nat) -> Seq<char>
    decreases n,
{
    if n < 10 {
        seq![digit_char(n)]
    } else {
        decimal(n / 10).push(digit_char(n % 10))
    }
}

proof fn lemma_digit_char(d: nat)
    requires
        d < 10,
    ensures
        is_digit(digit_char(d)),
        digit_value(digit_char(d)) == d,
{
}

/// The decimal representation of `n` is a run of digits that denotes `n`.
pub proof fn lemma_decimal_digits(n: nat)
    ensures
        decimal(n).len() > 0,
        all_digits(decimal(n)),
        digits_value(decimal(n)) == n,
    decreases n,
{
    if n < 10 {
        lemma_digit_char(n);
        let d = seq![digit_char(n)];
        assert(d.drop_last() =~= Seq::<char>::empty());
        assert(d.last() == digit_char(n));
        assert(digits_value(d) == digits_value(d.drop_last()) * 10 + digit_value(d.last()));
    } else {
        lemma_decimal_digits(n / 10);
        lemma_digit_char(n % 10);
        let d = decimal(n);
        assert(d.drop_last() =~= decimal(n / 10));
        assert(d.last() == digit_char(n % 10));
        assert(digits_value(d) == digits_value(decimal(n / 10)) * 10 + (n % 10));
        assert((n / 10) * 10 + n % 10 == n) by (nonlinear_arith);
    }
}

/// Reading back the decimal text of a `u32` gives the same number.
pub proof fn lemma_parse_decimal(n: u32)
    ensures
        parse_u32_spec(decimal(n as nat)) == Some(n),
{
    lemma_decimal_digits(n as nat);
    let s = decimal(n as nat);
    assert(s[0] != '+') by {
        assert(is_digit(s[0]));
    }
}

proof fn lemma_digits_value_prefix(s: Seq<char>, i: int)
    requires
        0 <= i <= s.len(),
    ensures
        digits_value(s.take(i)) <= digits_value(s),
    decreases s.len() - i,
{
    if i < s.len() {
        lemma_digits_value_prefix(s, i + 1);
        assert(s.take(i + 1).drop_last() =~= s.take(i));
    } else {
        assert(s.take(i) =~= s);
    }
}

/// The text of one decimal digit.
fn digit_text(d: u32) -> (t: &'static str)
    requires
        d < 10,
    ensures
        t@ == seq![digit_char(d as nat)],
{
    match d {
        0 => {
            proof { reveal_strlit("0"); }
            "0"
        },
        1 => {
            proof { reveal_strlit("1"); }
            "1"
        },
        2 => {
            proof { reveal_strlit("2"); }
            "2"
        },
        3 => {
            proof { reveal_strlit("3"); }
            "3"
        },
        4 => {
            proof { reveal_strlit("4"); }
            "4"
        },
        5 => {
            proof { reveal_strlit("5"); }
            "5"
        },
        6 => {
            proof { reveal_strlit("6"); }
            "6"
        },
        7 => {
            proof { reveal_strlit("7"); }
            "7"
        },
        8 => {
            proof { reveal_strlit("8"); }
            "8"
        },
        _ => {
            proof { reveal_strlit("9"); }
            "9"
        },
    }
}

/// The decimal text of `n`, as `n.to_string()` writes it.
pub fn decimal_text(n: u64) -> (text: String)
    ensures
        text@ == decimal(n as nat),
    decreases n,
{
    if n < 10 {
        digit_text(n as u32).to_owned()
    } else {
        let mut text = decimal_text(n / 10);
        text.append(digit_text((n % 10) as u32));
        text
    }
}

/// Reads a `u32` the way `str::parse::<u32>` does: an optional `+` and then
/// only decimal digits, with a value that fits; `None` for anything else.
pub fn parse_u32(s: &str) -> (parsed: Option<u32>)
    ensures
        parsed == parse_u32_spec(s@),
{
    broadcast use vstd::string::is_ascii_spec_bytes;

    if !s.is_ascii() {
        proof {
            let i = choose|i: int| 0 <= i < s@.len() && !('\0' <= #[trigger] s@[i] <= '\u{7f}');
            let body = if s@.len() > 0 && s@[0] == '+' { s@.drop_first() } else { s@ };
            if s@.len() > 0 && s@[0] == '+' {
                assert(body[i - 1] == s@[i]);
            } else {
                assert(body[i] == s@[i]);
            }
        }
        return None;
    }
    let n = s.unicode_len();
    let mut start: usize = 0;
    if n > 0 && s.get_ascii(0) == 43u8 {
        start = 1;
    }
    let ghost body = s@.skip(start as int);
    assert(body =~= (if s@.len() > 0 && s@[0] == '+' { s@.drop_first() } else { s@ }));
    if start >= n {
        return None;
    }
    let mut acc: u32 = 0;
    let mut i: usize = start;
    while i < n
        invariant
            start <= i <= n,
            n == s@.len(),
            s.is_ascii(),
            body == s@.skip(start as int),
            body == (if s@.len() > 0 && s@[0] == '+' { s@.drop_first() } else { s@ }),
            body.len() > 0,
            acc as nat == digits_value(body.take(i - start)),
            all_digits(body.take(i - start)),
        decreases n - i,
    {
        let b = s.get_ascii(i);
        let ghost c = s@[i as int];
        assert(c == body[i - start]);
        assert('\0' <= c <= '\u{7f}');
        assert(b as u32 == c as u32);
        if b < 48u8 || b > 57u8 {
            assert(!is_digit(body[i - start]));
            return None;
        }
        let d: u32 = (b - 48u8) as u32;
        assert(body.take(i - start + 1).drop_last() =~= body.take(i - start));
        assert(body.take(i - start + 1).last() == c);
        assert(digit_value(c) == d);
        assert(digits_value(body.take(i - start + 1)) == acc * 10 + d);
        match acc.checked_mul(10) {
            None => {
                proof {
                    lemma_digits_value_prefix(body, i - start + 1);
                }
                return None;
            },
            Some(m) => match m.checked_add(d) {
                None => {
                    proof {
                        lemma_digits_value_prefix(body, i - start + 1);
                    }
                    return None;
                },
                Some(v) => {
                    acc = v;
                },
            },
        }
        i = i + 1;
    }
    assert(body.take(n - start) =~= body);
    Some(acc)
}

} // verus!
