//! Output formatting: decimal number formatting, JSON string escaping, and
//! the text and JSON renderings of a comic.

use vstd::prelude::*;
use vstd::string::StrSliceExecFns;
use vstd::string::StringExecFns;

use crate::outside;

verus! {

/// The decimal digit character for `d`, `0 <= d < 10`.
pub open spec fn digit_char(d: int) -> char {
    if d == 0 {
        '0'
    } else if d == 1 {
        '1'
    } else if d == 2 {
        '2'
    } else if d == 3 {
        '3'
    } else if d == 4 {
        '4'
    } else if d == 5 {
        '5'
    } else if d == 6 {
        '6'
    } else if d == 7 {
        '7'
    } else if d == 8 {
        '8'
    } else {
        '9'
    }
}

/// The decimal representation of `n`, most significant digit first, with no
/// leading zeros (a single `'0'` for zero).
pub open spec fn dec_rep(n: nat) -> Seq<char>
    decreases n,
{
    if n < 10 {
        seq![digit_char(n as int)]
    } else {
        dec_rep(n / 10) + seq![digit_char((n % 10) as int)]
    }
}

/// A decimal representation is never empty.
pub proof fn lemma_dec_rep_nonempty(n: nat)
    ensures
        dec_rep(n).len() >= 1,
    decreases n,
{
    if n >= 10 {
        lemma_dec_rep_nonempty(n / 10);
    }
}

/// The decimal digit character for `d`, as executable code.
fn digit_char_exec(d: usize) -> (r: char)
    requires
        d < 10,
    ensures
        r == digit_char(d as int),
{
    if d == 0 {
        '0'
    } else if d == 1 {
        '1'
    } else if d == 2 {
        '2'
    } else if d == 3 {
        '3'
    } else if d == 4 {
        '4'
    } else if d == 5 {
        '5'
    } else if d == 6 {
        '6'
    } else if d == 7 {
        '7'
    } else if d == 8 {
        '8'
    } else {
        '9'
    }
}

/// Formats `n` in decimal.
pub fn fmt_usize(n: usize) -> (r: String)
    ensures
        r@ == dec_rep(n as nat),
    decreases n,
{
    if n < 10 {
        let mut s = String::new();
        outside::push_char(&mut s, digit_char_exec(n));
        proof {
            assert(s@ =~= dec_rep(n as nat));
        }
        s
    } else {
        let mut s = fmt_usize(n / 10);
        outside::push_char(&mut s, digit_char_exec(n % 10));
        proof {
            assert(s@ =~= dec_rep(n as nat));
        }
        s
    }
}

/// The numeric value of a decimal digit character (zero elsewhere).
pub open spec fn digit_val(c: char) -> nat {
    if c == '1' {
        1
    } else if c == '2' {
        2
    } else if c == '3' {
        3
    } else if c == '4' {
        4
    } else if c == '5' {
        5
    } else if c == '6' {
        6
    } else if c == '7' {
        7
    } else if c == '8' {
        8
    } else if c == '9' {
        9
    } else {
        0
    }
}

/// The number a sequence of decimal digit characters denotes, most
/// significant digit first.
pub open spec fn dec_val(s: Seq<char>) -> nat
    decreases s.len(),
{
    if s.len() == 0 {
        0
    } else {
        10 * dec_val(s.drop_last()) + digit_val(s.last())
    }
}

/// Decimal formatting loses nothing: reading the digits back gives the
/// number, for every number.
pub proof fn lemma_dec_val_of_dec_rep(n: nat)
    ensures
        dec_val(dec_rep(n)) == n,
    decreases n,
{
    if n < 10 {
        assert(dec_rep(n).drop_last() =~= Seq::<char>::empty());
        assert(dec_rep(n).last() == digit_char(n as int));
        assert(digit_val(digit_char(n as int)) == n);
        assert(dec_val(Seq::<char>::empty()) == 0);
        assert(dec_val(dec_rep(n)) == 10 * dec_val(Seq::<char>::empty()) + digit_val(
            dec_rep(n).last(),
        ));
    } else {
        lemma_dec_val_of_dec_rep(n / 10);
        let t = dec_rep(n / 10) + seq![digit_char((n % 10) as int)];
        assert(t.drop_last() =~= dec_rep(n / 10));
        assert(t.last() == digit_char((n % 10) as int));
        assert(digit_val(digit_char((n % 10) as int)) == n % 10);
        assert(dec_val(t) == 10 * (n / 10) + n % 10);
        vstd::arithmetic::div_mod::lemma_fundamental_div_mod(n as int, 10);
    }
}

/// The hexadecimal digit character for `d`, `0 <= d < 16` (lower case).
pub open spec fn hex_char(d: int) -> char {
    if d < 10 {
        digit_char(d)
    } else if d == 10 {
        'a'
    } else if d == 11 {
        'b'
    } else if d == 12 {
        'c'
    } else if d == 13 {
        'd'
    } else if d == 14 {
        'e'
    } else {
        'f'
    }
}

/// What a character becomes inside a JSON string literal: quote and
/// backslash get a backslash escape, control characters a `\u00XX` escape,
/// everything else stands as itself.
pub open spec fn esc_char(c: char) -> Seq<char> {
    if c == '"' {
        seq!['\\', '"']
    } else if c == '\\' {
        seq!['\\', '\\']
    } else if (c as u32) < 32 {
        seq![
            '\\',
            'u',
            '0',
            '0',
            hex_char(((c as u32) / 16) as int),
            hex_char(((c as u32) % 16) as int),
        ]
    } else {
        seq![c]
    }
}

/// A whole string escaped for use inside a JSON string literal.
pub open spec fn escape(s: Seq<char>) -> Seq<char>
    decreases s.len(),
{
    if s.len() == 0 {
        Seq::empty()
    } else {
        esc_char(s[0]) + escape(s.drop_first())
    }
}

/// Escaping one more character at the end extends the escaped text at the
/// end.
pub proof fn lemma_escape_push(s: Seq<char>, c: char)
    ensures
        escape(s.push(c)) == escape(s) + esc_char(c),
    decreases s.len(),
{
    let t = s.push(c);
    if s.len() == 0 {
        assert(t[0] == c);
        assert(t.drop_first() =~= Seq::<char>::empty());
        assert(escape(t) == esc_char(t[0]) + escape(t.drop_first()));
        assert(s =~= Seq::<char>::empty());
        assert(escape(t) =~= escape(s) + esc_char(c));
    } else {
        assert(t[0] == s[0]);
        assert(t.drop_first() =~= s.drop_first().push(c));
        lemma_escape_push(s.drop_first(), c);
        assert(escape(t) == esc_char(t[0]) + escape(t.drop_first()));
        assert(escape(s) == esc_char(s[0]) + escape(s.drop_first()));
        assert(escape(t) =~= escape(s) + esc_char(c));
    }
}

/// The hexadecimal digit character for `d`, as executable code.
fn hex_char_exec(d: u32) -> (r: char)
    requires
        d < 16,
    ensures
        r == hex_char(d as int),
{
    if d < 10 {
        digit_char_exec(d as usize)
    } else if d == 10 {
        'a'
    } else if d == 11 {
        'b'
    } else if d == 12 {
        'c'
    } else if d == 13 {
        'd'
    } else if d == 14 {
        'e'
    } else {
        'f'
    }
}

/// Appends `esc_char(c)` to `out`.
fn push_escaped(out: &mut String, c: char)
    ensures
        final(out)@ == old(out)@ + esc_char(c),
{
    if c == '"' {
        outside::push_char(out, '\\');
        outside::push_char(out, '"');
        proof {
            assert(out@ =~= old(out)@ + esc_char(c));
        }
    } else if c == '\\' {
        outside::push_char(out, '\\');
        outside::push_char(out, '\\');
        proof {
            assert(out@ =~= old(out)@ + esc_char(c));
        }
    } else if (c as u32) < 32 {
        outside::push_char(out, '\\');
        outside::push_char(out, 'u');
        outside::push_char(out, '0');
        outside::push_char(out, '0');
        outside::push_char(out, hex_char_exec((c as u32) / 16));
        outside::push_char(out, hex_char_exec((c as u32) % 16));
        proof {
            assert(out@ =~= old(out)@ + esc_char(c));
        }
    } else {
        outside::push_char(out, c);
        proof {
            assert(out@ =~= old(out)@ + esc_char(c));
        }
    }
}

/// Escapes a whole string for use inside a JSON string literal.
pub fn escape_str(s: &str) -> (r: String)
    ensures
        r@ == escape(s@),
{
    let len: usize = s.unicode_len();
    let mut out = String::new();
    let mut i: usize = 0;
    while i < len
        invariant
            i <= len,
            len == s@.len(),
            out@ == escape(s@.subrange(0, i as int)),
        decreases len - i,
    {
        let c = s.get_char(i);
        push_escaped(&mut out, c);
        proof {
            assert(s@.subrange(0, i as int + 1) =~= s@.subrange(0, i as int).push(s@[i as int]));
            lemma_escape_push(s@.subrange(0, i as int), s@[i as int]);
        }
        i = i + 1;
    }
    proof {
        assert(s@.subrange(0, len as int) =~= s@);
    }
    out
}

/// The fixed five-line human-readable block for a comic: Title, Comic No,
/// Date, Description, Image, each on its own line, in that order.
pub open spec fn text_of(
    title: Seq<char>,
    num: nat,
    date: Seq<char>,
    desc: Seq<char>,
    img: Seq<char>,
) -> Seq<char> {
    "Title: "@ + title + "\n"@ + "Comic No: "@ + dec_rep(num) + "\n"@ + "Date: "@ + date + "\n"@
        + "Description: "@ + desc + "\n"@ + "Image: "@ + img + "\n"@
}

/// The compact JSON object for a comic: the five attributes under the keys
/// `title`, `num`, `date`, `desc` and `img_url`, in that order, with string
/// values escaped.
pub open spec fn json_of(
    title: Seq<char>,
    num: nat,
    date: Seq<char>,
    desc: Seq<char>,
    img: Seq<char>,
) -> Seq<char> {
    "{\"title\":\""@ + escape(title) + "\",\"num\":"@ + dec_rep(num) + ",\"date\":\""@ + escape(
        date,
    ) + "\",\"desc\":\""@ + escape(desc) + "\",\"img_url\":\""@ + escape(img) + "\"}"@
}

/// The value of a lower-case hexadecimal digit character (zero elsewhere).
pub open spec fn hex_val(c: char) -> int {
    if c == '0' {
        0
    } else if c == '1' {
        1
    } else if c == '2' {
        2
    } else if c == '3' {
        3
    } else if c == '4' {
        4
    } else if c == '5' {
        5
    } else if c == '6' {
        6
    } else if c == '7' {
        7
    } else if c == '8' {
        8
    } else if c == '9' {
        9
    } else if c == 'a' {
        10
    } else if c == 'b' {
        11
    } else if c == 'c' {
        12
    } else if c == 'd' {
        13
    } else if c == 'e' {
        14
    } else {
        15
    }
}

/// The control character with code point `k`, `0 <= k < 32`.
pub open spec fn control_char(k: int) -> char {
    if k == 0 {
        '\x00'
    } else if k == 1 {
        '\x01'
    } else if k == 2 {
        '\x02'
    } else if k == 3 {
        '\x03'
    } else if k == 4 {
        '\x04'
    } else if k == 5 {
        '\x05'
    } else if k == 6 {
        '\x06'
    } else if k == 7 {
        '\x07'
    } else if k == 8 {
        '\x08'
    } else if k == 9 {
        '\x09'
    } else if k == 10 {
        '\x0a'
    } else if k == 11 {
        '\x0b'
    } else if k == 12 {
        '\x0c'
    } else if k == 13 {
        '\x0d'
    } else if k == 14 {
        '\x0e'
    } else if k == 15 {
        '\x0f'
    } else if k == 16 {
        '\x10'
    } else if k == 17 {
        '\x11'
    } else if k == 18 {
        '\x12'
    } else if k == 19 {
        '\x13'
    } else if k == 20 {
        '\x14'
    } else if k == 21 {
        '\x15'
    } else if k == 22 {
        '\x16'
    } else if k == 23 {
        '\x17'
    } else if k == 24 {
        '\x18'
    } else if k == 25 {
        '\x19'
    } else if k == 26 {
        '\x1a'
    } else if k == 27 {
        '\x1b'
    } else if k == 28 {
        '\x1c'
    } else if k == 29 {
        '\x1d'
    } else if k == 30 {
        '\x1e'
    } else {
        '\x1f'
    }
}

/// `hex_val` inverts `hex_char` on the digits.
pub proof fn lemma_hex_val_of_hex_char(d: int)
    requires
        0 <= d < 16,
    ensures
        hex_val(hex_char(d)) == d,
{
}

/// `control_char` gives back the character a code point under 32 came from.
pub proof fn lemma_control_char_of_code(c: char)
    requires
        (c as u32) < 32,
    ensures
        control_char((c as u32) as int) == c,
{
    let u: u32 = c as u32;
    let d = control_char(u as int);
    assert(d as u32 == u);
    vstd::utf8::char_u32_cast(c, u);
    vstd::utf8::char_u32_cast(d, u);
}

/// The inverse of `escape`: undoes the backslash and `\u00XX` escapes that
/// `esc_char` produces (text that is not of that shape gets no meaning
/// here).
pub open spec fn unescape(s: Seq<char>) -> Seq<char>
    decreases s.len(),
{
    if s.len() == 0 {
        Seq::empty()
    } else if s[0] == '\\' {
        if s.len() < 2 {
            Seq::empty()
        } else if s[1] == 'u' {
            if s.len() < 6 {
                Seq::empty()
            } else {
                seq![control_char(16 * hex_val(s[4]) + hex_val(s[5]))] + unescape(
                    s.skip(6),
                )
            }
        } else {
            seq![s[1]] + unescape(s.skip(2))
        }
    } else {
        seq![s[0]] + unescape(s.skip(1))
    }
}

/// Escaping loses nothing: decoding the escaped text gives the original
/// back, for every string.
pub proof fn lemma_unescape_escape(s: Seq<char>)
    ensures
        unescape(escape(s)) == s,
    decreases s.len(),
{
    if s.len() == 0 {
    } else {
        let c = s[0];
        let e = esc_char(c);
        let rest = escape(s.drop_first());
        let t = e + rest;
        assert(escape(s) == t);
        lemma_unescape_escape(s.drop_first());
        if c == '"' || c == '\\' {
            assert(t.len() >= 2 && t[0] == '\\' && t[1] == c && t[1] != 'u');
            assert(t.skip(2) =~= rest);
            assert(unescape(t) == seq![c] + unescape(rest));
            assert(seq![c] + s.drop_first() =~= s);
        } else if (c as u32) < 32 {
            let u: u32 = c as u32;
            assert(t.len() >= 6 && t[0] == '\\' && t[1] == 'u');
            assert(t[4] == hex_char((u / 16) as int) && t[5] == hex_char((u % 16) as int));
            lemma_hex_val_of_hex_char((u / 16) as int);
            lemma_hex_val_of_hex_char((u % 16) as int);
            assert(16 * hex_val(t[4]) + hex_val(t[5]) == u as int);
            lemma_control_char_of_code(c);
            assert(t.skip(6) =~= rest);
            assert(unescape(t) == seq![c] + unescape(rest));
            assert(seq![c] + s.drop_first() =~= s);
        } else {
            assert(t[0] == c && t[0] != '\\');
            assert(t.skip(1) =~= rest);
            assert(unescape(t) == seq![c] + unescape(rest));
            assert(seq![c] + s.drop_first() =~= s);
        }
    }
}

/// Whether `c` is a decimal digit character.
pub open spec fn is_digit(c: char) -> bool {
    c == '0' || c == '1' || c == '2' || c == '3' || c == '4' || c == '5' || c == '6' || c == '7'
        || c == '8' || c == '9'
}

/// The length of the escaped string region at the front of `s`: characters
/// up to the first quote that no backslash precedes.
pub open spec fn scan_string(s: Seq<char>) -> int
    decreases s.len(),
{
    if s.len() == 0 {
        0
    } else if s[0] == '"' {
        0
    } else if s[0] == '\\' {
        if s.len() >= 2 {
            2 + scan_string(s.skip(2))
        } else {
            1
        }
    } else {
        1 + scan_string(s.skip(1))
    }
}

/// The length of the digit region at the front of `s`.
pub open spec fn scan_digits(s: Seq<char>) -> int
    decreases s.len(),
{
    if s.len() == 0 {
        0
    } else if is_digit(s[0]) {
        1 + scan_digits(s.skip(1))
    } else {
        0
    }
}

/// Scanning escaped text followed by a closing quote stops exactly at the
/// quote: no escape produces one that a backslash does not precede.
pub proof fn lemma_scan_string_escape(x: Seq<char>, t: Seq<char>)
    requires
        t.len() > 0,
        t[0] == '"',
    ensures
        scan_string(escape(x) + t) == escape(x).len(),
    decreases x.len(),
{
    if x.len() == 0 {
        assert(escape(x) + t =~= t);
    } else {
        let c = x[0];
        let u = escape(x.drop_first()) + t;
        let s = escape(x) + t;
        assert(s =~= esc_char(c) + u);
        lemma_scan_string_escape(x.drop_first(), t);
        if c == '"' || c == '\\' {
            assert(s[0] == '\\' && s.len() >= 2);
            assert(s.skip(2) =~= u);
            assert(scan_string(s) == 2 + scan_string(u));
        } else if (c as u32) < 32 {
            let h1 = hex_char(((c as u32) / 16) as int);
            let h2 = hex_char(((c as u32) % 16) as int);
            assert(h1 != '"' && h1 != '\\' && h2 != '"' && h2 != '\\');
            assert(s[0] == '\\' && s.len() >= 2);
            let v0 = seq!['0', '0', h1, h2] + u;
            assert(s.skip(2) =~= v0);
            assert(scan_string(s) == 2 + scan_string(v0));
            let v1 = seq!['0', h1, h2] + u;
            assert(v0[0] == '0' && v0[0] != '"' && v0[0] != '\\');
            assert(v0.skip(1) =~= v1);
            assert(scan_string(v0) == 1 + scan_string(v1));
            let v2 = seq![h1, h2] + u;
            assert(v1[0] == '0');
            assert(v1.skip(1) =~= v2);
            assert(scan_string(v1) == 1 + scan_string(v2));
            let v3 = seq![h2] + u;
            assert(v2[0] == h1);
            assert(v2.skip(1) =~= v3);
            assert(scan_string(v2) == 1 + scan_string(v3));
            assert(v3[0] == h2);
            assert(v3.skip(1) =~= u);
            assert(scan_string(v3) == 1 + scan_string(u));
        } else {
            assert(s[0] == c && c != '"' && c != '\\');
            assert(s.skip(1) =~= u);
            assert(scan_string(s) == 1 + scan_string(u));
        }
    }
}

/// Scanning digits walks over a whole decimal representation.
pub proof fn lemma_scan_digits_dec_rep(n: nat, t: Seq<char>)
    ensures
        scan_digits(dec_rep(n) + t) == dec_rep(n).len() + scan_digits(t),
    decreases n,
{
    if n < 10 {
        let s = dec_rep(n) + t;
        assert(s[0] == digit_char(n as int));
        assert(is_digit(s[0]));
        assert(s.skip(1) =~= t);
        assert(scan_digits(s) == 1 + scan_digits(t));
    } else {
        let d = seq![digit_char((n % 10) as int)];
        let s = dec_rep(n) + t;
        assert(s =~= dec_rep(n / 10) + (d + t));
        lemma_scan_digits_dec_rep(n / 10, d + t);
        let v = d + t;
        assert(v[0] == digit_char((n % 10) as int));
        assert(is_digit(v[0]));
        assert(v.skip(1) =~= t);
        assert(scan_digits(v) == 1 + scan_digits(t));
    }
}

/// Two different strings never escape to the same text.
pub proof fn lemma_escape_injective(s1: Seq<char>, s2: Seq<char>)
    requires
        escape(s1) == escape(s2),
    ensures
        s1 == s2,
{
    lemma_unescape_escape(s1);
    lemma_unescape_escape(s2);
}

/// How often `c` occurs in `s`.
pub open spec fn count_char(s: Seq<char>, c: char) -> nat
    decreases s.len(),
{
    if s.len() == 0 {
        0
    } else {
        (if s[0] == c {
            1nat
        } else {
            0nat
        }) + count_char(s.drop_first(), c)
    }
}

/// Occurrence counts add up over concatenation.
pub proof fn lemma_count_char_append(a: Seq<char>, b: Seq<char>, c: char)
    ensures
        count_char(a + b, c) == count_char(a, c) + count_char(b, c),
    decreases a.len(),
{
    if a.len() == 0 {
        assert(a + b =~= b);
    } else {
        assert((a + b).drop_first() =~= a.drop_first() + b);
        lemma_count_char_append(a.drop_first(), b, c);
    }
}

/// A string without an occurrence of `c` counts zero.
pub proof fn lemma_count_char_zero(s: Seq<char>, c: char)
    requires
        forall|i: int| 0 <= i < s.len() ==> s[i] != c,
    ensures
        count_char(s, c) == 0,
    decreases s.len(),
{
    if s.len() > 0 {
        lemma_count_char_zero(s.drop_first(), c);
    }
}

/// A decimal representation holds digit characters only, never a newline.
pub proof fn lemma_dec_rep_no_newline(n: nat)
    ensures
        count_char(dec_rep(n), '\n') == 0,
    decreases n,
{
    if n < 10 {
        assert(count_char(dec_rep(n), '\n') == 0) by {
            reveal_with_fuel(count_char, 2);
        }
    } else {
        lemma_dec_rep_no_newline(n / 10);
        lemma_count_char_append(dec_rep(n / 10), seq![digit_char((n % 10) as int)], '\n');
        assert(count_char(seq![digit_char((n % 10) as int)], '\n') == 0) by {
            reveal_with_fuel(count_char, 2);
        }
    }
}

/// The text rendering is exactly five lines: when none of the four string
/// fields holds a newline of its own, the block holds exactly five newline
/// characters, one ending each labeled line.
pub proof fn lemma_text_five_lines(
    title: Seq<char>,
    num: nat,
    date: Seq<char>,
    desc: Seq<char>,
    img: Seq<char>,
)
    requires
        count_char(title, '\n') == 0,
        count_char(date, '\n') == 0,
        count_char(desc, '\n') == 0,
        count_char(img, '\n') == 0,
    ensures
        count_char(text_of(title, num, date, desc, img), '\n') == 5,
{
    let nl = '\n';
    reveal_strlit("Title: ");
    reveal_strlit("Comic No: ");
    reveal_strlit("Date: ");
    reveal_strlit("Description: ");
    reveal_strlit("Image: ");
    reveal_strlit("\n");
    lemma_count_char_zero("Title: "@, nl);
    lemma_count_char_zero("Comic No: "@, nl);
    lemma_count_char_zero("Date: "@, nl);
    lemma_count_char_zero("Description: "@, nl);
    lemma_count_char_zero("Image: "@, nl);
    lemma_dec_rep_no_newline(num);
    assert(count_char("\n"@, nl) == 1) by {
        reveal_with_fuel(count_char, 2);
        reveal_strlit("\n");
    }
    let s1 = "Title: "@ + title;
    let s2 = s1 + "\n"@;
    let s3 = s2 + "Comic No: "@;
    let s4 = s3 + dec_rep(num);
    let s5 = s4 + "\n"@;
    let s6 = s5 + "Date: "@;
    let s7 = s6 + date;
    let s8 = s7 + "\n"@;
    let s9 = s8 + "Description: "@;
    let s10 = s9 + desc;
    let s11 = s10 + "\n"@;
    let s12 = s11 + "Image: "@;
    let s13 = s12 + img;
    lemma_count_char_append("Title: "@, title, nl);
    lemma_count_char_append(s1, "\n"@, nl);
    lemma_count_char_append(s2, "Comic No: "@, nl);
    lemma_count_char_append(s3, dec_rep(num), nl);
    lemma_count_char_append(s4, "\n"@, nl);
    lemma_count_char_append(s5, "Date: "@, nl);
    lemma_count_char_append(s6, date, nl);
    lemma_count_char_append(s7, "\n"@, nl);
    lemma_count_char_append(s8, "Description: "@, nl);
    lemma_count_char_append(s9, desc, nl);
    lemma_count_char_append(s10, "\n"@, nl);
    lemma_count_char_append(s11, "Image: "@, nl);
    lemma_count_char_append(s12, img, nl);
    lemma_count_char_append(s13, "\n"@, nl);
}

/// Reads the five field values back out of text shaped like `json_of`
/// produces: the title, number, date, description and image URL, in that
/// order. Text of another shape gets no meaning here.
pub open spec fn json_fields(t: Seq<char>) -> (Seq<char>, nat, Seq<char>, Seq<char>, Seq<char>) {
    let r1: int = scan_string(t.skip(10));
    let i1: int = 10 + r1 + 8;
    let r2: int = scan_digits(t.skip(i1));
    let i2: int = i1 + r2 + 9;
    let r3: int = scan_string(t.skip(i2));
    let i3: int = i2 + r3 + 10;
    let r4: int = scan_string(t.skip(i3));
    let i4: int = i3 + r4 + 13;
    let r5: int = scan_string(t.skip(i4));
    (
        unescape(t.skip(10).take(r1)),
        dec_val(t.skip(i1).take(r2)),
        unescape(t.skip(i2).take(r3)),
        unescape(t.skip(i3).take(r4)),
        unescape(t.skip(i4).take(r5)),
    )
}

/// The JSON rendering round-trips: decoding the printed object gives the
/// same five field values back, for every comic.
#[verifier::rlimit(100)]
pub proof fn lemma_json_round_trip(
    title: Seq<char>,
    num: nat,
    date: Seq<char>,
    desc: Seq<char>,
    img: Seq<char>,
)
    ensures
        json_fields(json_of(title, num, date, desc, img)) == (title, num, date, desc, img),
{
    reveal_strlit("{\"title\":\"");
    reveal_strlit("\",\"num\":");
    reveal_strlit(",\"date\":\"");
    reveal_strlit("\",\"desc\":\"");
    reveal_strlit("\",\"img_url\":\"");
    reveal_strlit("\"}");
    let t = json_of(title, num, date, desc, img);
    let e1 = escape(title);
    let d = dec_rep(num);
    let e3 = escape(date);
    let e4 = escape(desc);
    let e5 = escape(img);
    let u_img = e5 + "\"}"@;
    let u5 = "\",\"img_url\":\""@ + u_img;
    let u_desc = e4 + u5;
    let u4 = "\",\"desc\":\""@ + u_desc;
    let u_date = e3 + u4;
    let u3 = ",\"date\":\""@ + u_date;
    let u_num = d + u3;
    let u2 = "\",\"num\":"@ + u_num;
    let u_title = e1 + u2;
    assert("{\"title\":\""@.len() == 10);
    assert("\",\"num\":"@.len() == 8);
    assert(",\"date\":\""@.len() == 9);
    assert("\",\"desc\":\""@.len() == 10);
    assert("\",\"img_url\":\""@.len() == 13);
    assert("\"}"@.len() == 2);
    assert(t =~= "{\"title\":\""@ + u_title);
    // The title region.
    assert(t.skip(10) =~= u_title);
    assert(u2[0] == '"');
    lemma_scan_string_escape(title, u2);
    let r1: int = scan_string(t.skip(10));
    assert(r1 == e1.len());
    assert(t.skip(10).take(r1) =~= e1);
    lemma_unescape_escape(title);
    // The number region.
    let i1: int = 10 + r1 + 8;
    assert(t.skip(i1) =~= t.skip(10).skip(r1 + 8));
    assert(u_title.skip(r1 + 8) =~= u2.skip(8));
    assert(u2.skip(8) =~= u_num);
    assert(t.skip(i1) == u_num);
    lemma_scan_digits_dec_rep(num, u3);
    assert(u3[0] == ',');
    assert(!is_digit(','));
    assert(scan_digits(u3) == 0);
    let r2: int = scan_digits(t.skip(i1));
    assert(r2 == d.len());
    assert(t.skip(i1).take(r2) =~= d);
    lemma_dec_val_of_dec_rep(num);
    // The date region.
    let i2: int = i1 + r2 + 9;
    assert(t.skip(i2) =~= t.skip(i1).skip(r2 + 9));
    assert(u_num.skip(r2 + 9) =~= u3.skip(9));
    assert(u3.skip(9) =~= u_date);
    assert(t.skip(i2) == u_date);
    assert(u4[0] == '"');
    lemma_scan_string_escape(date, u4);
    let r3: int = scan_string(t.skip(i2));
    assert(r3 == e3.len());
    assert(t.skip(i2).take(r3) =~= e3);
    lemma_unescape_escape(date);
    // The description region.
    let i3: int = i2 + r3 + 10;
    assert(t.skip(i3) =~= t.skip(i2).skip(r3 + 10));
    assert(u_date.skip(r3 + 10) =~= u4.skip(10));
    assert(u4.skip(10) =~= u_desc);
    assert(t.skip(i3) == u_desc);
    assert(u5[0] == '"');
    lemma_scan_string_escape(desc, u5);
    let r4: int = scan_string(t.skip(i3));
    assert(r4 == e4.len());
    assert(t.skip(i3).take(r4) =~= e4);
    lemma_unescape_escape(desc);
    // The image URL region.
    let i4: int = i3 + r4 + 13;
    assert(t.skip(i4) =~= t.skip(i3).skip(r4 + 13));
    assert(u_desc.skip(r4 + 13) =~= u5.skip(13));
    assert(u5.skip(13) =~= u_img);
    assert(t.skip(i4) == u_img);
    assert("\"}"@[0] == '"');
    lemma_scan_string_escape(img, "\"}"@);
    let r5: int = scan_string(t.skip(i4));
    assert(r5 == e5.len());
    assert(t.skip(i4).take(r5) =~= e5);
    lemma_unescape_escape(img);
}

/// Renders the five-line text block.
pub fn render_text(title: &str, num: usize, date: &str, desc: &str, img: &str) -> (r: String)
    ensures
        r@ == text_of(title@, num as nat, date@, desc@, img@),
{
    let mut out = String::from_str("Title: ");
    out.append(title);
    out.append("\n");
    out.append("Comic No: ");
    let n = fmt_usize(num);
    out.append(n.as_str());
    out.append("\n");
    out.append("Date: ");
    out.append(date);
    out.append("\n");
    out.append("Description: ");
    out.append(desc);
    out.append("\n");
    out.append("Image: ");
    out.append(img);
    out.append("\n");
    proof {
        assert(out@ =~= text_of(title@, num as nat, date@, desc@, img@));
    }
    out
}

/// Renders the compact JSON object.
pub fn render_json(title: &str, num: usize, date: &str, desc: &str, img: &str) -> (r: String)
    ensures
        r@ == json_of(title@, num as nat, date@, desc@, img@),
{
    let mut out = String::from_str("{\"title\":\"");
    let t = escape_str(title);
    out.append(t.as_str());
    out.append("\",\"num\":");
    let n = fmt_usize(num);
    out.append(n.as_str());
    out.append(",\"date\":\"");
    let d = escape_str(date);
    out.append(d.as_str());
    out.append("\",\"desc\":\"");
    let de = escape_str(desc);
    out.append(de.as_str());
    out.append("\",\"img_url\":\"");
    let i = escape_str(img);
    out.append(i.as_str());
    out.append("\"}");
    proof {
        assert(out@ =~= json_of(title@, num as nat, date@, desc@, img@));
    }
    out
}

} // verus!
