use vstd::prelude::*;

verus! {

// ─── writing into a String ──────────────────────────────────────────────────

/// `String::push`: `c` is appended.
#[verifier::external_body]
pub fn push_char(w: &mut String, c: char)
    ensures
        final(w)@ == old(w)@.push(c),
{
    w.push(c);
}

/// Append all of `s` to `w`.
pub fn push_str(w: &mut String, s: &str)
    ensures
        final(w)@ == old(w)@ + s@,
{
    w.append(s);
}

/// Whether `c` occurs in `s`.
pub fn str_contains_char(s: &str, c: char) -> (r: bool)
    ensures
        r == s@.contains(c),
{
    let n = s.unicode_len();
    let mut i: usize = 0;
    while i < n
        invariant
            n == s@.len(),
            i <= n,
            forall|j: int| 0 <= j < i ==> s@[j] != c,
        decreases n - i,
    {
        if s.get_char(i) == c {
            assert(s@[i as int] == c);
            return true;
        }
        i = i + 1;
    }
    false
}

// ─── numbers ────────────────────────────────────────────────────────────────

pub open spec fn digit_char(d: nat) -> char {
    if d == 0 {
        '0'
    } else if d == 1 {
        '1'
    } else if d == 2 {
        '2'
    } else if d == 3 {
        '3'
    } else if d == 4 {
        '4'
    } else if d == 5 {
        '5'
    } else if d == 6 {
        '6'
    } else if d == 7 {
        '7'
    } else if d == 8 {
        '8'
    } else if d == 9 {
        '9'
    } else if d == 10 {
        'A'
    } else if d == 11 {
        'B'
    } else if d == 12 {
        'C'
    } else if d == 13 {
        'D'
    } else if d == 14 {
        'E'
    } else {
        'F'
    }
}

/// The digits of `n` in base `b` (2 <= b <= 16), most significant first,
/// upper-case letters above 9, no leading zeros ("0" for zero).
pub open spec fn nat_digits(n: nat, b: nat) -> Seq<char>
    decreases n,
{
    if b < 2 || n < b {
        seq![digit_char(n)]
    } else {
        proof {
            assert(n / b < n) by (nonlinear_arith)
                requires
                    b >= 2,
                    n >= b,
            ;
        }
        nat_digits(n / b, b).push(digit_char(n % b))
    }
}

/// Decimal text of a signed integer, with a leading '-' when negative.
pub open spec fn int_to_decimal(i: int) -> Seq<char> {
    if i < 0 {
        seq!['-'] + nat_digits((-i) as nat, 10)
    } else {
        nat_digits(i as nat, 10)
    }
}

fn exec_digit_char(d: u64) -> (c: char)
    requires
        d < 16,
    ensures
        c == digit_char(d as nat),
{
    if d == 0 {
        '0'
    } else if d == 1 {
        '1'
    } else if d == 2 {
        '2'
    } else if d == 3 {
        '3'
    } else if d == 4 {
        '4'
    } else if d == 5 {
        '5'
    } else if d == 6 {
        '6'
    } else if d == 7 {
        '7'
    } else if d == 8 {
        '8'
    } else if d == 9 {
        '9'
    } else if d == 10 {
        'A'
    } else if d == 11 {
        'B'
    } else if d == 12 {
        'C'
    } else if d == 13 {
        'D'
    } else if d == 14 {
        'E'
    } else {
        'F'
    }
}

/// Write `n` in base `b`.
pub fn write_digits(w: &mut String, n: u64, b: u64)
    requires
        2 <= b <= 16,
    ensures
        final(w)@ == old(w)@ + nat_digits(n as nat, b as nat),
    decreases n,
{
    if n < b {
        push_char(w, exec_digit_char(n));
    } else {
        assert(n / b < n) by (nonlinear_arith)
            requires
                b >= 2,
                n >= b,
        ;
        write_digits(w, n / b, b);
        push_char(w, exec_digit_char(n % b));
        proof {
            assert(old(w)@ + nat_digits((n / b) as nat, b as nat).push(digit_char((n % b) as nat))
                =~= old(w)@ + nat_digits(n as nat, b as nat));
        }
    }
}

/// Write `i` in decimal, as `write!(w, "{}", i)` does for an `i64`.
pub fn write_i64(w: &mut String, i: i64)
    ensures
        final(w)@ == old(w)@ + int_to_decimal(i as int),
{
    if i < 0 {
        push_char(w, '-');
        let wide: i128 = i as i128;
        let a: u64 = (0i128 - wide) as u64;
        write_digits(w, a, 10);
        proof {
            assert(old(w)@.push('-') + nat_digits(a as nat, 10) =~= old(w)@ + (seq!['-']
                + nat_digits(a as nat, 10)));
        }
    } else {
        write_digits(w, i as u64, 10);
    }
}

/// Write `n` in decimal, as `write!(w, "{}", n)` does for a `usize`.
pub fn write_usize(w: &mut String, n: usize)
    ensures
        final(w)@ == old(w)@ + nat_digits(n as nat, 10),
{
    write_digits(w, n as u64, 10);
}

/// Write a `bool` as `write!(w, "{}", b)` does.
pub fn write_bool(w: &mut String, b: bool)
    ensures
        final(w)@ == old(w)@ + bool_text(b),
{
    if b {
        push_str(w, "true");
    } else {
        push_str(w, "false");
    }
}

pub open spec fn bool_text(b: bool) -> Seq<char> {
    if b {
        "true"@
    } else {
        "false"@
    }
}

// ─── hover escaping ─────────────────────────────────────────────────────────

/// Unicode general category Cc: U+0000..=U+001F and U+007F..=U+009F.
pub open spec fn is_control(c: char) -> bool {
    (c as u32) <= 0x1F || (0x7F <= (c as u32) && (c as u32) <= 0x9F)
}

/// `char::is_control`.
pub fn char_is_control(c: char) -> (r: bool)
    ensures
        r == is_control(c),
{
    let code = c as u32;
    code <= 0x1F || (0x7F <= code && code <= 0x9F)
}

/// Two upper-case hex digits, zero-padded (`{:02X}`).
pub open spec fn hex2(n: nat) -> Seq<char> {
    if n < 16 {
        seq!['0'] + nat_digits(n, 16)
    } else {
        nat_digits(n, 16)
    }
}

/// How one character is written by the hover escaper.
pub open spec fn escape_char(c: char) -> Seq<char> {
    if c == '\\' {
        "\\\\"@
    } else if c == '"' {
        "\\\""@
    } else if c == '\n' {
        "\\n"@
    } else if c == '\r' {
        "\\r"@
    } else if c == '\t' {
        "\\t"@
    } else if c == '\u{1b}' {
        "\\27"@
    } else if is_control(c) {
        if (c as u32) <= 0xFF {
            "\\x"@ + hex2(c as nat)
        } else {
            "\\u{"@ + nat_digits(c as nat, 16) + "}"@
        }
    } else {
        seq![c]
    }
}

/// The escaped form of a whole string: each character escaped in turn.
pub open spec fn escape_string(s: Seq<char>) -> Seq<char>
    decreases s.len(),
{
    if s.len() == 0 {
        Seq::empty()
    } else {
        escape_string(s.drop_last()) + escape_char(s.last())
    }
}

// ─── the escaping can be undone ─────────────────────────────────────────────

/// Characters the escaper writes in a backslash form.
pub open spec fn escaped_specially(c: char) -> bool {
    c == '\\' || c == '"' || is_control(c)
}

proof fn lemma_hex2(n: nat)
    requires
        n < 256,
    ensures
        hex2(n) == seq![digit_char(n / 16), digit_char(n % 16)],
{
    if n < 16 {
        assert(nat_digits(n, 16) == seq![digit_char(n)]);
        assert(hex2(n) =~= seq![digit_char(n / 16), digit_char(n % 16)]);
    } else {
        assert(n / 16 < 16);
        assert(nat_digits(n / 16, 16) == seq![digit_char(n / 16)]);
        assert(hex2(n) =~= seq![digit_char(n / 16), digit_char(n % 16)]);
    }
}

proof fn lemma_digit_char_injective(a: nat, b: nat)
    requires
        a < 16,
        b < 16,
        digit_char(a) == digit_char(b),
    ensures
        a == b,
{
}

proof fn lemma_escape_char_shape(c: char)
    ensures
        !escaped_specially(c) ==> escape_char(c) == seq![c],
        escaped_specially(c) ==> escape_char(c).len() >= 2 && escape_char(c)[0] == '\\',
        c == '\\' ==> escape_char(c) == seq!['\\', '\\'],
        c == '"' ==> escape_char(c) == seq!['\\', '"'],
        c == '\n' ==> escape_char(c) == seq!['\\', 'n'],
        c == '\r' ==> escape_char(c) == seq!['\\', 'r'],
        c == '\t' ==> escape_char(c) == seq!['\\', 't'],
        c == '\u{1b}' ==> escape_char(c) == seq!['\\', '2', '7'],
        is_control(c) && c != '\n' && c != '\r' && c != '\t' && c != '\u{1b}' ==> escape_char(c)
            == seq!['\\', 'x', digit_char((c as nat) / 16), digit_char((c as nat) % 16)],
{
    reveal_strlit("\\\\");
    reveal_strlit("\\\"");
    reveal_strlit("\\n");
    reveal_strlit("\\r");
    reveal_strlit("\\t");
    reveal_strlit("\\27");
    reveal_strlit("\\x");
    if is_control(c) {
        assert((c as u32) <= 0x9F);
        lemma_hex2(c as nat);
        if c != '\\' && c != '"' && c != '\n' && c != '\r' && c != '\t' && c != '\u{1b}' {
            assert(escape_char(c) =~= seq![
                '\\',
                'x',
                digit_char((c as nat) / 16),
                digit_char((c as nat) % 16),
            ]);
        }
    }
    assert("\\\\"@ =~= seq!['\\', '\\']);
    assert("\\\""@ =~= seq!['\\', '"']);
    assert("\\n"@ =~= seq!['\\', 'n']);
    assert("\\r"@ =~= seq!['\\', 'r']);
    assert("\\t"@ =~= seq!['\\', 't']);
    assert("\\27"@ =~= seq!['\\', '2', '7']);
}

/// No escaped character is the beginning of the escape of another one.
proof fn lemma_escape_char_prefix_free(a: char, b: char, x: Seq<char>, y: Seq<char>)
    requires
        escape_char(a) + x == escape_char(b) + y,
    ensures
        a == b,
        x == y,
{
    lemma_escape_char_shape(a);
    lemma_escape_char_shape(b);
    let ea = escape_char(a);
    let eb = escape_char(b);
    let t = ea + x;
    assert(t[0] == ea[0]);
    assert(t[0] == eb[0]);
    if escaped_specially(a) && escaped_specially(b) {
        assert(t[1] == ea[1] && t[1] == eb[1]);
        if ea.len() == 4 && eb.len() == 4 {
            assert(t[2] == ea[2] && t[2] == eb[2]);
            assert(t[3] == ea[3] && t[3] == eb[3]);
            lemma_digit_char_injective((a as nat) / 16, (b as nat) / 16);
            lemma_digit_char_injective((a as nat) % 16, (b as nat) % 16);
            assert((a as nat) == (b as nat));
        } else if ea.len() == 3 && eb.len() == 3 {
        }
    }
    assert(a == b);
    assert(x =~= t.subrange(ea.len() as int, t.len() as int));
    assert(y =~= t.subrange(eb.len() as int, t.len() as int));
}

proof fn lemma_escape_string_front(s: Seq<char>)
    requires
        s.len() > 0,
    ensures
        escape_string(s) == escape_char(s[0]) + escape_string(s.drop_first()),
    decreases s.len(),
{
    if s.len() > 1 {
        lemma_escape_string_front(s.drop_last());
        assert(s.drop_last().drop_first() =~= s.drop_first().drop_last());
        assert(s.drop_first().last() == s.last());
        assert(s.drop_last()[0] == s[0]);
    } else {
        assert(s.drop_first() =~= Seq::<char>::empty());
        assert(s.drop_last() =~= Seq::<char>::empty());
    }
}

/// Different strings escape to different texts, so the escaping can be
/// undone.
pub proof fn lemma_escape_string_injective(s1: Seq<char>, s2: Seq<char>)
    ensures
        escape_string(s1) == escape_string(s2) ==> s1 == s2,
    decreases s1.len(),
{
    if escape_string(s1) == escape_string(s2) {
        if s1.len() == 0 {
            if s2.len() > 0 {
                lemma_escape_string_front(s2);
                lemma_escape_char_shape(s2[0]);
            }
            assert(s1 =~= s2);
        } else {
            lemma_escape_string_front(s1);
            lemma_escape_char_shape(s1[0]);
            if s2.len() == 0 {
                assert(escape_string(s1).len() > 0);
            } else {
                lemma_escape_string_front(s2);
                lemma_escape_char_prefix_free(
                    s1[0],
                    s2[0],
                    escape_string(s1.drop_first()),
                    escape_string(s2.drop_first()),
                );
                lemma_escape_string_injective(s1.drop_first(), s2.drop_first());
                assert(s1 =~= seq![s1[0]] + s1.drop_first());
                assert(s2 =~= seq![s2[0]] + s2.drop_first());
            }
        }
    }
}

/// No character of `t` is a control character, and each quote in it comes
/// right after a backslash.
pub open spec fn quote_safe(t: Seq<char>) -> bool {
    forall|i: int|
        0 <= i < t.len() ==> !is_control(#[trigger] t[i]) && (t[i] == '"' ==> i > 0 && t[i - 1]
            == '\\')
}

proof fn lemma_digit_char_plain(d: nat)
    ensures
        !is_control(digit_char(d)),
        digit_char(d) != '"',
{
}

/// The escaped text holds no control character and no quote that is not
/// preceded by a backslash.
pub proof fn lemma_escape_string_quote_safe(s: Seq<char>)
    ensures
        quote_safe(escape_string(s)),
    decreases s.len(),
{
    if s.len() > 0 {
        lemma_escape_string_quote_safe(s.drop_last());
        let c = s.last();
        let p = escape_string(s.drop_last());
        let e = escape_char(c);
        lemma_escape_char_shape(c);
        lemma_digit_char_plain((c as nat) / 16);
        lemma_digit_char_plain((c as nat) % 16);
        assert(quote_safe(e));
        let t = p + e;
        assert forall|i: int| 0 <= i < t.len() implies !is_control(#[trigger] t[i]) && (t[i]
            == '"' ==> i > 0 && t[i - 1] == '\\') by {
            if i < p.len() {
                assert(t[i] == p[i]);
                if i > 0 {
                    assert(t[i - 1] == p[i - 1]);
                }
            } else {
                assert(t[i] == e[i - p.len()]);
                if i - p.len() > 0 {
                    assert(t[i - 1] == e[i - 1 - p.len()]);
                }
            }
        }
    }
}

/// Write an escaped version of `s` directly into `w`: backslash, quote,
/// newline, carriage return and tab become their backslash forms, ESC becomes
/// `\27`, other control characters `\xHH`, and everything else is kept.
pub fn write_hover_escape_string(s: &str, w: &mut String)
    ensures
        final(w)@ == old(w)@ + escape_string(s@),
{
    let n = s.unicode_len();
    let mut i: usize = 0;
    while i < n
        invariant
            n == s@.len(),
            i <= n,
            w@ == old(w)@ + escape_string(s@.take(i as int)),
        decreases n - i,
    {
        let ch = s.get_char(i);
        let ghost before = w@;
        if ch == '\\' {
            push_str(w, "\\\\");
        } else if ch == '"' {
            push_str(w, "\\\"");
        } else if ch == '\n' {
            push_str(w, "\\n");
        } else if ch == '\r' {
            push_str(w, "\\r");
        } else if ch == '\t' {
            push_str(w, "\\t");
        } else if ch == '\u{1b}' {
            push_str(w, "\\27");
        } else if char_is_control(ch) {
            let code = ch as u32;
            if code <= 0xFF {
                push_str(w, "\\x");
                if code < 16 {
                    push_char(w, '0');
                }
                write_digits(w, code as u64, 16);
                proof {
                    if code < 16 {
                        assert(before + "\\x"@ + seq!['0'] + nat_digits(code as nat, 16) =~= before
                            + ("\\x"@ + hex2(code as nat)));
                    } else {
                        assert(before + "\\x"@ + nat_digits(code as nat, 16) =~= before + ("\\x"@
                            + hex2(code as nat)));
                    }
                }
            } else {
                push_str(w, "\\u{");
                write_digits(w, code as u64, 16);
                push_str(w, "}");
                proof {
                    assert(before + "\\u{"@ + nat_digits(code as nat, 16) + "}"@ =~= before + (
                    "\\u{"@ + nat_digits(code as nat, 16) + "}"@));
                }
            }
        } else {
            push_char(w, ch);
            proof {
                assert(before.push(ch) =~= before + seq![ch]);
            }
        }
        proof {
            assert(s@.take(i + 1).drop_last() =~= s@.take(i as int));
            assert(s@.take(i + 1).last() == ch);
            assert(w@ =~= old(w)@ + escape_string(s@.take(i as int)) + escape_char(ch));
        }
        i = i + 1;
    }
    proof {
        assert(s@.take(n as int) =~= s@);
    }
}

/// Write `s` with every newline replaced by a space.
pub fn write_replacing_newlines(s: &str, w: &mut String)
    ensures
        final(w)@ == old(w)@ + s@.map_values(|c: char| if c == '\n' { ' ' } else { c }),
{
    let ghost target = s@.map_values(|c: char| if c == '\n' { ' ' } else { c });
    let n = s.unicode_len();
    let mut i: usize = 0;
    while i < n
        invariant
            n == s@.len(),
            i <= n,
            target == s@.map_values(|c: char| if c == '\n' { ' ' } else { c }),
            w@ == old(w)@ + target.take(i as int),
        decreases n - i,
    {
        let ch = s.get_char(i);
        if ch == '\n' {
            push_char(w, ' ');
        } else {
            push_char(w, ch);
        }
        proof {
            assert(target.take(i + 1) =~= target.take(i as int).push(target[i as int]));
        }
        i = i + 1;
    }
    proof {
        assert(target.take(n as int) =~= target);
    }
}

// ─── concatenation facts ────────────────────────────────────────────────────

pub broadcast proof fn lemma_concat_assoc(a: Seq<char>, b: Seq<char>, c: Seq<char>)
    ensures
        #[trigger] (a + (b + c)) == (a + b) + c,
{
    assert(a + (b + c) =~= (a + b) + c);
}

pub broadcast proof fn lemma_concat_empty(a: Seq<char>)
    ensures
        #[trigger] (a + Seq::<char>::empty()) == a,
{
    assert(a + Seq::<char>::empty() =~= a);
}

pub broadcast proof fn lemma_empty_concat(a: Seq<char>)
    ensures
        #[trigger] (Seq::<char>::empty() + a) == a,
{
    assert(Seq::<char>::empty() + a =~= a);
}

pub broadcast group group_text {
    lemma_concat_assoc,
    lemma_concat_empty,
    lemma_empty_concat,
}

} // verus!
