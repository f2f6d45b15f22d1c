//! Building text: decimal and hexadecimal numerals, escapes, UTF-8 lengths,
//! splitting into lines and joining.
use vstd::prelude::*;
use vstd::string::StringExecFns;

verus! {

/// Appends one character to a string (`String::push`).
#[verifier::external_body]
pub(crate) fn push_char(s: &mut String, c: char)
    ensures
        final(s)@ == old(s)@.push(c),
{
    s.push(c);
}

/// Appends text to a string.
pub fn push_str(s: &mut String, t: &str)
    ensures
        final(s)@ == old(s)@ + t@,
{
    s.append(t);
}

/// The characters of a string, in order.
pub fn chars_of(s: &str) -> (v: Vec<char>)
    ensures
        v@ == s@,
{
    let mut v: Vec<char> = Vec::new();
    for c in it: s.chars()
        invariant
            v@ == it.seq().take(it.index() as int),
    {
        v.push(c);
    }
    proof {
        vstd::string::axiom_spec_iter(s);
    }
    v
}

/// The decimal digit for a value below ten.
pub open spec fn digit_char(d: nat) -> char {
    if d == 0 {
        '0'
    } else if d == 1 {
        '1'
    } else if d == 2 {
        '2'
    } else if d == 3 {
        '3'
    } else if d == 4 {
        '4'
    } else if d == 5 {
        '5'
    } else if d == 6 {
        '6'
    } else if d == 7 {
        '7'
    } else if d == 8 {
        '8'
    } else {
        '9'
    }
}

/// The decimal numeral of a natural number, without leading zeros.
pub open spec fn nat_text(n: nat) -> Seq<char>
    decreases n,
{
    if n < 10 {
        seq![digit_char(n)]
    } else {
        nat_text(n / 10).push(digit_char(n % 10))
    }
}

/// The decimal numeral of an integer, with `-` before a negative one.
pub open spec fn int_text(i: int) -> Seq<char> {
    if i < 0 {
        seq!['-'] + nat_text((-i) as nat)
    } else {
        nat_text(i as nat)
    }
}

fn digit(d: u128) -> (c: char)
    requires
        d < 10,
    ensures
        c == digit_char(d as nat),
{
    if d == 0 {
        '0'
    } else if d == 1 {
        '1'
    } else if d == 2 {
        '2'
    } else if d == 3 {
        '3'
    } else if d == 4 {
        '4'
    } else if d == 5 {
        '5'
    } else if d == 6 {
        '6'
    } else if d == 7 {
        '7'
    } else if d == 8 {
        '8'
    } else {
        '9'
    }
}

/// Appends the decimal numeral of `n`.
pub fn push_nat(s: &mut String, n: u128)
    ensures
        final(s)@ == old(s)@ + nat_text(n as nat),
    decreases n,
{
    if n >= 10 {
        push_nat(s, n / 10);
    }
    push_char(s, digit(n % 10));
}

/// Appends the decimal numeral of `v`.
pub fn push_int(s: &mut String, v: isize)
    ensures
        final(s)@ == old(s)@ + int_text(v as int),
{
    if v < 0 {
        push_char(s, '-');
        let m = (0i128 - v as i128) as u128;
        push_nat(s, m);
    } else {
        push_nat(s, v as u128);
    }
}

/// The lowercase hexadecimal digit for a value below sixteen.
pub open spec fn hex_digit_char(d: nat) -> char {
    if d < 10 {
        digit_char(d)
    } else if d == 10 {
        'a'
    } else if d == 11 {
        'b'
    } else if d == 12 {
        'c'
    } else if d == 13 {
        'd'
    } else if d == 14 {
        'e'
    } else {
        'f'
    }
}

/// The lowercase hexadecimal numeral of a natural number, without leading zeros.
pub open spec fn hex_text(n: nat) -> Seq<char>
    decreases n,
{
    if n < 16 {
        seq![hex_digit_char(n)]
    } else {
        hex_text(n / 16).push(hex_digit_char(n % 16))
    }
}

fn hex_digit(d: u32) -> (c: char)
    requires
        d < 16,
    ensures
        c == hex_digit_char(d as nat),
{
    if d < 10 {
        digit(d as u128)
    } else if d == 10 {
        'a'
    } else if d == 11 {
        'b'
    } else if d == 12 {
        'c'
    } else if d == 13 {
        'd'
    } else if d == 14 {
        'e'
    } else {
        'f'
    }
}

fn push_hex(s: &mut String, n: u32)
    ensures
        final(s)@ == old(s)@ + hex_text(n as nat),
    decreases n,
{
    if n >= 16 {
        push_hex(s, n / 16);
    }
    push_char(s, hex_digit(n % 16));
}

/// How a character is written inside a string literal of the generated code:
/// tab, carriage return, line feed, backslash and both quotes as two-character
/// escapes, printable ASCII as itself, and every other character as
/// `\u{hex}`.
pub open spec fn escape_char(c: char) -> Seq<char> {
    if c == '\t' {
        seq!['\\', 't']
    } else if c == '\r' {
        seq!['\\', 'r']
    } else if c == '\n' {
        seq!['\\', 'n']
    } else if c == '\\' {
        seq!['\\', '\\']
    } else if c == '\'' {
        seq!['\\', '\'']
    } else if c == '"' {
        seq!['\\', '"']
    } else if ' ' <= c && c <= '~' {
        seq![c]
    } else {
        seq!['\\', 'u', '{'] + hex_text((c as u32) as nat) + seq!['}']
    }
}

/// Every character of `s` escaped, in order.
pub open spec fn escape_text(s: Seq<char>) -> Seq<char>
    decreases s.len(),
{
    if s.len() == 0 {
        Seq::empty()
    } else {
        escape_text(s.drop_last()) + escape_char(s.last())
    }
}

/// How many bytes UTF-8 takes for a character.
pub open spec fn utf8_width(c: char) -> nat {
    if (c as u32) < 0x80 {
        1
    } else if (c as u32) < 0x800 {
        2
    } else if (c as u32) < 0x10000 {
        3
    } else {
        4
    }
}

/// How many bytes UTF-8 takes for a text.
pub open spec fn utf8_len(s: Seq<char>) -> nat
    decreases s.len(),
{
    if s.len() == 0 {
        0
    } else {
        utf8_len(s.drop_last()) + utf8_width(s.last())
    }
}

/// Appends `s` with every character escaped.
pub fn push_escaped(out: &mut String, s: &String)
    ensures
        final(out)@ == old(out)@ + escape_text(s@),
{
    let cs = chars_of(s.as_str());
    let mut i: usize = 0;
    while i < cs.len()
        invariant
            i <= cs@.len(),
            cs@ == s@,
            out@ == old(out)@ + escape_text(cs@.take(i as int)),
        decreases cs@.len() - i,
    {
        let c = cs[i];
        assert(cs@.take(i + 1).drop_last() =~= cs@.take(i as int));
        assert(cs@.take(i + 1).last() == c);
        let ghost prev = out@;
        if c == '\t' {
            push_str(out, "\\t");
        } else if c == '\r' {
            push_str(out, "\\r");
        } else if c == '\n' {
            push_str(out, "\\n");
        } else if c == '\\' {
            push_str(out, "\\\\");
        } else if c == '\'' {
            push_str(out, "\\'");
        } else if c == '"' {
            push_str(out, "\\\"");
        } else if ' ' <= c && c <= '~' {
            push_char(out, c);
        } else {
            push_str(out, "\\u{");
            push_hex(out, c as u32);
            push_char(out, '}');
        }
        proof {
            reveal_strlit("\\t");
            reveal_strlit("\\r");
            reveal_strlit("\\n");
            reveal_strlit("\\\\");
            reveal_strlit("\\'");
            reveal_strlit("\\\"");
            reveal_strlit("\\u{");
        }
        assert(out@ =~= prev + escape_char(c));
        assert(out@ =~= old(out)@ + escape_text(cs@.take(i + 1)));
        i = i + 1;
    }
    assert(cs@.take(cs@.len() as int) =~= cs@);
}

/// The number of bytes UTF-8 takes for a string.
pub fn byte_len(s: &String) -> (n: u128)
    ensures
        n == utf8_len(s@),
{
    let cs = chars_of(s.as_str());
    let mut n: u128 = 0;
    let mut i: usize = 0;
    while i < cs.len()
        invariant
            i <= cs@.len(),
            cs@ == s@,
            n == utf8_len(cs@.take(i as int)),
            n <= 4 * i,
        decreases cs@.len() - i,
    {
        let c = cs[i];
        assert(cs@.take(i + 1).drop_last() =~= cs@.take(i as int));
        assert(cs@.take(i + 1).last() == c);
        let w: u128 = if (c as u32) < 0x80 {
            1
        } else if (c as u32) < 0x800 {
            2
        } else if (c as u32) < 0x10000 {
            3
        } else {
            4
        };
        n = n + w;
        i = i + 1;
    }
    assert(cs@.take(cs@.len() as int) =~= cs@);
    n
}

/// Where the first line feed of `t` is, or its length when it has none.
pub open spec fn newline_at(t: Seq<char>) -> int
    decreases t.len(),
{
    if t.len() == 0 {
        0
    } else if t[0] == '\n' {
        0
    } else {
        1 + newline_at(t.drop_first())
    }
}

/// A line without the carriage return that ended it.
pub open spec fn strip_cr(line: Seq<char>) -> Seq<char> {
    if line.len() > 0 && line.last() == '\r' {
        line.drop_last()
    } else {
        line
    }
}

/// The lines of a text: split at each line feed, a carriage return before it
/// dropped; a final line feed starts no empty line, and the empty text has no
/// lines.
pub open spec fn text_lines(t: Seq<char>) -> Seq<Seq<char>>
    decreases t.len(),
{
    if t.len() == 0 {
        Seq::empty()
    } else {
        let k = newline_at(t);
        if 0 <= k < t.len() {
            seq![strip_cr(t.take(k))] + text_lines(t.skip(k + 1))
        } else {
            seq![t]
        }
    }
}

/// The texts one after another with `sep` between each two.
pub open spec fn join(parts: Seq<Seq<char>>, sep: Seq<char>) -> Seq<char>
    decreases parts.len(),
{
    if parts.len() == 0 {
        Seq::empty()
    } else if parts.len() == 1 {
        parts[0]
    } else {
        join(parts.drop_last(), sep) + sep + parts.last()
    }
}

/// The views of a list of strings.
pub open spec fn views(v: Seq<String>) -> Seq<Seq<char>> {
    Seq::new(v.len(), |i: int| v[i]@)
}

proof fn lemma_newline_at(t: Seq<char>, m: int)
    requires
        0 <= m <= t.len(),
        forall|j: int| 0 <= j < m ==> t[j] != '\n',
        m < t.len() ==> t[m] == '\n',
    ensures
        newline_at(t) == m,
    decreases m,
{
    if m > 0 {
        lemma_newline_at(t.drop_first(), m - 1);
    }
}

/// The lines of a string (`str::lines`).
pub fn lines_of(s: &String) -> (r: Vec<String>)
    ensures
        views(r@) == text_lines(s@),
{
    let cs = chars_of(s.as_str());
    let n = cs.len();
    let mut r: Vec<String> = Vec::new();
    let mut start: usize = 0;
    let mut i: usize = 0;
    assert(cs@.skip(0) =~= cs@);
    assert(views(r@) + text_lines(cs@) =~= text_lines(cs@));
    while i < n
        invariant
            n == cs@.len(),
            cs@ == s@,
            start <= i <= n,
            forall|j: int| start <= j < i ==> cs@[j] != '\n',
            views(r@) + text_lines(cs@.skip(start as int)) == text_lines(cs@),
        decreases n - i,
    {
        if cs[i] == '\n' {
            let ghost t = cs@.skip(start as int);
            proof {
                lemma_newline_at(t, i - start);
            }
            let mut end = i;
            if end > start && cs[end - 1] == '\r' {
                end = end - 1;
            }
            let mut line = String::new();
            let mut j = start;
            while j < end
                invariant
                    start <= j <= end <= i < n,
                    n == cs@.len(),
                    line@ == cs@.subrange(start as int, j as int),
                decreases end - j,
            {
                push_char(&mut line, cs[j]);
                j = j + 1;
                assert(line@ =~= cs@.subrange(start as int, j as int));
            }
            assert(line@ =~= strip_cr(t.take(i - start)));
            assert(t.skip(i - start + 1) =~= cs@.skip(i + 1));
            let ghost before = views(r@);
            r.push(line);
            assert(views(r@) =~= before.push(line@));
            assert(views(r@) + text_lines(cs@.skip(i + 1)) =~= before + text_lines(t));
            start = i + 1;
        }
        i = i + 1;
    }
    if start < n {
        let ghost t = cs@.skip(start as int);
        proof {
            lemma_newline_at(t, n - start);
        }
        let mut line = String::new();
        let mut j = start;
        while j < n
            invariant
                start <= j <= n,
                n == cs@.len(),
                line@ == cs@.subrange(start as int, j as int),
            decreases n - j,
        {
            push_char(&mut line, cs[j]);
            j = j + 1;
            assert(line@ =~= cs@.subrange(start as int, j as int));
        }
        assert(line@ =~= t);
        let ghost before = views(r@);
        r.push(line);
        assert(views(r@) =~= before.push(line@));
        assert(text_lines(t) == seq![t]);
        assert(views(r@) =~= before + text_lines(t));
    } else {
        assert(cs@.skip(start as int) =~= Seq::<char>::empty());
        assert(views(r@) + Seq::<Seq<char>>::empty() =~= views(r@));
    }
    r
}

/// The strings one after another with `sep` between each two.
pub fn join_with(parts: &Vec<String>, sep: &str) -> (r: String)
    ensures
        r@ == join(views(parts@), sep@),
{
    let mut r = String::new();
    let mut i: usize = 0;
    while i < parts.len()
        invariant
            i <= parts@.len(),
            r@ == join(views(parts@).take(i as int), sep@),
        decreases parts@.len() - i,
    {
        let ghost prev = views(parts@).take(i as int);
        assert(views(parts@).take(i + 1).drop_last() =~= prev);
        if i > 0 {
            push_str(&mut r, sep);
        }
        push_str(&mut r, parts[i].as_str());
        i = i + 1;
        assert(r@ =~= join(views(parts@).take(i as int), sep@));
    }
    assert(views(parts@).take(parts@.len() as int) =~= views(parts@));
    r
}

} // verus!
