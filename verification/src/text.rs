//! Character-level building blocks for the canonical text forms: decimal and
//! hexadecimal digits, and escaping of quoted text.

use vstd::prelude::*;

verus! {

/// The decimal digit character for `d` in `0..10`.
pub open spec fn digit_char(d: int) -> char {
    if d == 0 {
        '0'
    } else if d == 1 {
        '1'
    } else if d == 2 {
        '2'
    } else if d == 3 {
        '3'
    } else if d == 4 {
        '4'
    } else if d == 5 {
        '5'
    } else if d == 6 {
        '6'
    } else if d == 7 {
        '7'
    } else if d == 8 {
        '8'
    } else {
        '9'
    }
}

/// The decimal form of a natural number, without sign or padding.
pub open spec fn dec_nat(n: nat) -> Seq<char>
    decreases n,
{
    if n < 10 {
        seq![digit_char(n as int)]
    } else {
        dec_nat(n / 10) + seq![digit_char((n % 10) as int)]
    }
}

/// The decimal form of an integer: a leading '-' for negative values.
pub open spec fn dec_int(i: int) -> Seq<char> {
    if i < 0 {
        seq!['-'] + dec_nat((-i) as nat)
    } else {
        dec_nat(i as nat)
    }
}

fn digit_str(d: u128) -> (r: &'static str)
    requires
        d < 10,
    ensures
        r@ == seq![digit_char(d as int)],
{
    if d == 0 {
        proof {
            reveal_strlit("0");
        }
        assert(seq![digit_char(0)] =~= "0"@);
        "0"
    } else if d == 1 {
        proof {
            reveal_strlit("1");
        }
        assert(seq![digit_char(1)] =~= "1"@);
        "1"
    } else if d == 2 {
        proof {
            reveal_strlit("2");
        }
        assert(seq![digit_char(2)] =~= "2"@);
        "2"
    } else if d == 3 {
        proof {
            reveal_strlit("3");
        }
        assert(seq![digit_char(3)] =~= "3"@);
        "3"
    } else if d == 4 {
        proof {
            reveal_strlit("4");
        }
        assert(seq![digit_char(4)] =~= "4"@);
        "4"
    } else if d == 5 {
        proof {
            reveal_strlit("5");
        }
        assert(seq![digit_char(5)] =~= "5"@);
        "5"
    } else if d == 6 {
        proof {
            reveal_strlit("6");
        }
        assert(seq![digit_char(6)] =~= "6"@);
        "6"
    } else if d == 7 {
        proof {
            reveal_strlit("7");
        }
        assert(seq![digit_char(7)] =~= "7"@);
        "7"
    } else if d == 8 {
        proof {
            reveal_strlit("8");
        }
        assert(seq![digit_char(8)] =~= "8"@);
        "8"
    } else {
        proof {
            reveal_strlit("9");
        }
        assert(seq![digit_char(9)] =~= "9"@);
        "9"
    }
}

/// Renders an unsigned number in decimal.
pub fn dec_u128(n: u128) -> (r: String)
    ensures
        r@ == dec_nat(n as nat),
    decreases n,
{
    if n < 10 {
        String::from_str(digit_str(n))
    } else {
        let mut s = dec_u128(n / 10);
        s.append(digit_str(n % 10));
        s
    }
}

/// Renders a signed number in decimal, with a leading '-' when negative.
pub fn dec_i128(n: i128) -> (r: String)
    ensures
        r@ == dec_int(n as int),
{
    if n >= 0 {
        dec_u128(n as u128)
    } else {
        let m: u128 = if n == i128::MIN {
            (i128::MAX as u128) + 1
        } else {
            (-n) as u128
        };
        assert(m as int == -(n as int));
        let mut s = String::from_str("-");
        proof {
            reveal_strlit("-");
        }
        assert(s@ =~= seq!['-']);
        let d = dec_u128(m);
        s.append(d.as_str());
        s
    }
}

/// The lowercase hexadecimal digit character for `d` in `0..16`.
pub open spec fn hex_digit_char(d: int) -> char {
    if d < 10 {
        digit_char(d)
    } else if d == 10 {
        'a'
    } else if d == 11 {
        'b'
    } else if d == 12 {
        'c'
    } else if d == 13 {
        'd'
    } else if d == 14 {
        'e'
    } else {
        'f'
    }
}

/// The lowercase hexadecimal form of a natural number, without padding.
pub open spec fn hex_nat(n: nat) -> Seq<char>
    decreases n,
{
    if n < 16 {
        seq![hex_digit_char(n as int)]
    } else {
        hex_nat(n / 16) + seq![hex_digit_char((n % 16) as int)]
    }
}

fn hex_digit_str(d: u16) -> (r: &'static str)
    requires
        d < 16,
    ensures
        r@ == seq![hex_digit_char(d as int)],
{
    if d < 10 {
        digit_str(d as u128)
    } else if d == 10 {
        proof {
            reveal_strlit("a");
        }
        assert(seq![hex_digit_char(10)] =~= "a"@);
        "a"
    } else if d == 11 {
        proof {
            reveal_strlit("b");
        }
        assert(seq![hex_digit_char(11)] =~= "b"@);
        "b"
    } else if d == 12 {
        proof {
            reveal_strlit("c");
        }
        assert(seq![hex_digit_char(12)] =~= "c"@);
        "c"
    } else if d == 13 {
        proof {
            reveal_strlit("d");
        }
        assert(seq![hex_digit_char(13)] =~= "d"@);
        "d"
    } else if d == 14 {
        proof {
            reveal_strlit("e");
        }
        assert(seq![hex_digit_char(14)] =~= "e"@);
        "e"
    } else {
        proof {
            reveal_strlit("f");
        }
        assert(seq![hex_digit_char(15)] =~= "f"@);
        "f"
    }
}

/// Renders a 16-bit number in lowercase hexadecimal without leading zeros.
pub fn hex_u16(n: u16) -> (r: String)
    ensures
        r@ == hex_nat(n as nat),
    decreases n,
{
    if n < 16 {
        String::from_str(hex_digit_str(n))
    } else {
        let mut s = hex_u16(n / 16);
        s.append(hex_digit_str(n % 16));
        s
    }
}

/// The decimal form of `n` zero-padded to exactly `w` digits (any digits of
/// `n` above the width are cut off).
pub open spec fn full_pad(n: nat, w: nat) -> Seq<char>
    decreases w,
{
    if w == 0 {
        Seq::empty()
    } else {
        full_pad(n / 10, (w - 1) as nat) + seq![digit_char((n % 10) as int)]
    }
}

/// The fractional digits of `n` inside a `w`-digit field: zero-padded to the
/// field width, with the trailing zeros removed. Empty when `n` is zero.
pub open spec fn frac_trimmed(n: nat, w: nat) -> Seq<char>
    decreases w,
{
    if w == 0 {
        Seq::empty()
    } else if n % 10 == 0 {
        frac_trimmed(n / 10, (w - 1) as nat)
    } else {
        full_pad(n, w)
    }
}

fn full_pad_exec(n: u32, w: usize) -> (r: String)
    ensures
        r@ == full_pad(n as nat, w as nat),
    decreases w,
{
    if w == 0 {
        let r = String::new();
        assert(r@ =~= full_pad(n as nat, 0));
        r
    } else {
        let mut s = full_pad_exec(n / 10, w - 1);
        s.append(digit_str((n % 10) as u128));
        s
    }
}

fn frac_trimmed_exec(n: u32, w: usize) -> (r: String)
    ensures
        r@ == frac_trimmed(n as nat, w as nat),
    decreases w,
{
    if w == 0 {
        let r = String::new();
        assert(r@ =~= frac_trimmed(n as nat, 0));
        r
    } else if n % 10 == 0 {
        frac_trimmed_exec(n / 10, w - 1)
    } else {
        full_pad_exec(n, w)
    }
}

/// The fractional part as rendered after a count of whole units: a dot and
/// the trimmed fractional digits, or nothing when the fraction is zero.
pub open spec fn frac_dot(n: nat, w: nat) -> Seq<char> {
    if frac_trimmed(n, w).len() == 0 {
        Seq::empty()
    } else {
        seq!['.'] + frac_trimmed(n, w)
    }
}

fn frac_dot_exec(n: u32, w: usize) -> (r: String)
    ensures
        r@ == frac_dot(n as nat, w as nat),
{
    let digits = frac_trimmed_exec(n, w);
    if digits.as_str().unicode_len() == 0 {
        assert(digits@ =~= frac_dot(n as nat, w as nat));
        digits
    } else {
        let mut s = String::from_str(".");
        proof {
            reveal_strlit(".");
            assert(s@ =~= seq!['.']);
        }
        s.append(digits.as_str());
        s
    }
}

/// The canonical text of a span of time given as whole seconds and a
/// nanosecond remainder: the largest fitting unit (s, ms, microseconds, ns)
/// with a trimmed fractional part, such as `1.5s` or `250ms`.
pub open spec fn duration_text(secs: nat, nanos: nat) -> Seq<char> {
    if secs > 0 {
        dec_nat(secs) + frac_dot(nanos, 9) + seq!['s']
    } else if nanos >= 1000000 {
        dec_nat(nanos / 1000000) + frac_dot(nanos % 1000000, 6) + seq!['m', 's']
    } else if nanos >= 1000 {
        dec_nat(nanos / 1000) + frac_dot(nanos % 1000, 3) + seq!['\u{b5}', 's']
    } else {
        dec_nat(nanos) + seq!['n', 's']
    }
}

/// Renders a span of time in its canonical text form.
pub fn render_duration(secs: u64, nanos: u32) -> (r: String)
    ensures
        r@ == duration_text(secs as nat, nanos as nat),
{
    if secs > 0 {
        let mut s = dec_u128(secs as u128);
        let f = frac_dot_exec(nanos, 9);
        s.append(f.as_str());
        s.append("s");
        proof {
            reveal_strlit("s");
            assert("s"@ =~= seq!['s']);
        }
        s
    } else if nanos >= 1000000 {
        let mut s = dec_u128((nanos / 1000000) as u128);
        let f = frac_dot_exec(nanos % 1000000, 6);
        s.append(f.as_str());
        s.append("ms");
        proof {
            reveal_strlit("ms");
            assert("ms"@ =~= seq!['m', 's']);
        }
        s
    } else if nanos >= 1000 {
        let mut s = dec_u128((nanos / 1000) as u128);
        let f = frac_dot_exec(nanos % 1000, 3);
        s.append(f.as_str());
        s.append("\u{b5}s");
        proof {
            reveal_strlit("\u{b5}s");
            assert("\u{b5}s"@ =~= seq!['\u{b5}', 's']);
        }
        s
    } else {
        let mut s = dec_u128(nanos as u128);
        s.append("ns");
        proof {
            reveal_strlit("ns");
            assert("ns"@ =~= seq!['n', 's']);
        }
        s
    }
}

/// Strict lexicographic order on character sequences, by code point. For
/// UTF-8 encoded text this agrees with byte-lexicographic order.
pub open spec fn lex_lt(a: Seq<char>, b: Seq<char>) -> bool
    decreases a.len(),
{
    if b.len() == 0 {
        false
    } else if a.len() == 0 {
        true
    } else if a[0] != b[0] {
        (a[0] as int) < (b[0] as int)
    } else {
        lex_lt(a.drop_first(), b.drop_first())
    }
}

/// `lex_lt` is connected: two sequences that are not strictly ordered either
/// way are equal.
pub proof fn lemma_lex_connected(a: Seq<char>, b: Seq<char>)
    requires
        !lex_lt(a, b),
        !lex_lt(b, a),
    ensures
        a == b,
    decreases a.len(),
{
    if a.len() == 0 && b.len() == 0 {
        assert(a =~= b);
    } else if a.len() == 0 {
        assert(lex_lt(a, b));
    } else if b.len() == 0 {
        assert(lex_lt(b, a));
    } else if a[0] != b[0] {
        assert(lex_lt(a, b) || lex_lt(b, a));
    } else {
        lemma_lex_connected(a.drop_first(), b.drop_first());
        assert(a =~= seq![a[0]] + a.drop_first());
        assert(b =~= seq![b[0]] + b.drop_first());
    }
}

/// `lex_lt` is irreflexive.
pub proof fn lemma_lex_irrefl(a: Seq<char>)
    ensures
        !lex_lt(a, a),
    decreases a.len(),
{
    if a.len() > 0 {
        lemma_lex_irrefl(a.drop_first());
    }
}

/// `lex_lt` is transitive.
pub proof fn lemma_lex_trans(a: Seq<char>, b: Seq<char>, c: Seq<char>)
    requires
        lex_lt(a, b),
        lex_lt(b, c),
    ensures
        lex_lt(a, c),
    decreases a.len() + b.len() + c.len(),
{
    if c.len() == 0 {
        assert(!lex_lt(b, c));
    } else if a.len() == 0 {
    } else if b.len() == 0 {
        assert(!lex_lt(a, b));
    } else {
        if a[0] == b[0] && b[0] == c[0] {
            lemma_lex_trans(a.drop_first(), b.drop_first(), c.drop_first());
        }
    }
}

fn str_lt_from(a: &str, b: &str, i: usize) -> (r: bool)
    requires
        i <= a@.len(),
        i <= b@.len(),
        a@.subrange(0, i as int) == b@.subrange(0, i as int),
    ensures
        r == lex_lt(a@.skip(i as int), b@.skip(i as int)),
    decreases a@.len() - i,
{
    let la = a.unicode_len();
    let lb = b.unicode_len();
    if i == lb {
        assert(b@.skip(i as int).len() == 0);
        false
    } else if i == la {
        assert(a@.skip(i as int).len() == 0);
        true
    } else {
        let ca = a.get_char(i);
        let cb = b.get_char(i);
        if ca != cb {
            assert(a@.skip(i as int)[0] == ca);
            assert(b@.skip(i as int)[0] == cb);
            (ca as u32) < (cb as u32)
        } else {
            proof {
                assert(a@.subrange(0, (i + 1) as int) =~= b@.subrange(0, (i + 1) as int));
            }
            let r = str_lt_from(a, b, i + 1);
            proof {
                assert(a@.skip(i as int).drop_first() =~= a@.skip((i + 1) as int));
                assert(b@.skip(i as int).drop_first() =~= b@.skip((i + 1) as int));
            }
            r
        }
    }
}

/// Decides strict lexicographic order on two strings.
pub fn str_lt(a: &str, b: &str) -> (r: bool)
    ensures
        r == lex_lt(a@, b@),
{
    proof {
        assert(a@.subrange(0, 0) =~= b@.subrange(0, 0));
        assert(a@.skip(0) =~= a@);
        assert(b@.skip(0) =~= b@);
    }
    str_lt_from(a, b, 0)
}

/// Decides equality of two strings, character by character.
pub fn str_eq(a: &str, b: &str) -> (r: bool)
    ensures
        r == (a@ == b@),
{
    let lt = str_lt(a, b);
    let gt = str_lt(b, a);
    proof {
        if !lt && !gt {
            lemma_lex_connected(a@, b@);
        }
        if a@ == b@ {
            lemma_lex_irrefl(a@);
        }
    }
    !lt && !gt
}

/// The escaped form of one character inside a quoted text: a backslash
/// escape for the quote, the backslash itself and the common control
/// characters, a braced hexadecimal escape for the remaining control range;
/// every other character stands as itself.
pub open spec fn escape_char(c: char) -> Seq<char> {
    if c == '"' {
        seq!['\\', '"']
    } else if c == '\\' {
        seq!['\\', '\\']
    } else if c == '\n' {
        seq!['\\', 'n']
    } else if c == '\r' {
        seq!['\\', 'r']
    } else if c == '\t' {
        seq!['\\', 't']
    } else if (c as int) < 32 || (c as int) == 127 {
        seq!['\\', 'u', '{'] + hex_nat(c as nat) + seq!['}']
    } else {
        seq![c]
    }
}

/// The escaped form of a text, character by character.
pub open spec fn escape_text(s: Seq<char>) -> Seq<char>
    decreases s.len(),
{
    if s.len() == 0 {
        Seq::empty()
    } else {
        escape_text(s.drop_last()) + escape_char(s.last())
    }
}

/// The canonical quoted form of a text: double quotes around its escaped
/// characters.
pub open spec fn quoted(s: Seq<char>) -> Seq<char> {
    seq!['"'] + escape_text(s) + seq!['"']
}

/// Renders a text in its canonical quoted form.
pub fn quote_text(s: &str) -> (r: String)
    ensures
        r@ == quoted(s@),
{
    let mut r = String::from_str("\"");
    proof {
        reveal_strlit("\"");
        assert(r@ =~= seq!['"']);
    }
    let len = s.unicode_len();
    let mut i: usize = 0;
    while i < len
        invariant
            i <= len,
            len == s@.len(),
            r@ == seq!['"'] + escape_text(s@.take(i as int)),
        decreases len - i,
    {
        let c = s.get_char(i);
        if c == '"' {
            r.append("\\\"");
            proof {
                reveal_strlit("\\\"");
                assert("\\\""@ =~= escape_char('"'));
            }
        } else if c == '\\' {
            r.append("\\\\");
            proof {
                reveal_strlit("\\\\");
                assert("\\\\"@ =~= escape_char('\\'));
            }
        } else if c == '\n' {
            r.append("\\n");
            proof {
                reveal_strlit("\\n");
                assert("\\n"@ =~= escape_char('\n'));
            }
        } else if c == '\r' {
            r.append("\\r");
            proof {
                reveal_strlit("\\r");
                assert("\\r"@ =~= escape_char('\r'));
            }
        } else if c == '\t' {
            r.append("\\t");
            proof {
                reveal_strlit("\\t");
                assert("\\t"@ =~= escape_char('\t'));
            }
        } else {
            let code = c as u32;
            if code < 32 || code == 127 {
                r.append("\\u{");
                let h = hex_u16(code as u16);
                r.append(h.as_str());
                r.append("}");
                proof {
                    reveal_strlit("\\u{");
                    reveal_strlit("}");
                    assert("\\u{"@ =~= seq!['\\', 'u', '{']);
                    assert("}"@ =~= seq!['}']);
                    assert((code as u16) as nat == c as nat);
                }
            } else {
                let piece = s.substring_char(i, i + 1);
                assert(piece@ =~= escape_char(c));
                r.append(piece);
            }
        }
        proof {
            assert(s@.take(i + 1 as int).drop_last() =~= s@.take(i as int));
            assert(s@.take(i + 1 as int).last() == c);
        }
        i = i + 1;
    }
    assert(s@.take(len as int) =~= s@);
    r.append("\"");
    proof {
        reveal_strlit("\"");
        assert("\""@ =~= seq!['"']);
    }
    r
}

} // verus!
