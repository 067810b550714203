//! Building blocks for the canonical JSON text: decimal numerals,
//! half-tile coordinates, escaped strings, and comma-joined lists.
use vstd::prelude::*;
use vstd::string::StringExecFns;
use vstd::string::StrSliceExecFns;

verus! {

// ---------------------------------------------------------------------------
// Decimal numerals
// ---------------------------------------------------------------------------

pub open spec fn digit_char(d: nat) -> char {
    if d == 0 {
        '0'
    } else if d == 1 {
        '1'
    } else if d == 2 {
        '2'
    } else if d == 3 {
        '3'
    } else if d == 4 {
        '4'
    } else if d == 5 {
        '5'
    } else if d == 6 {
        '6'
    } else if d == 7 {
        '7'
    } else if d == 8 {
        '8'
    } else {
        '9'
    }
}

/// The decimal numeral of `n`, most significant digit first.
pub open spec fn dec_nat(n: nat) -> Seq<char>
    decreases n,
{
    if n < 10 {
        seq![digit_char(n)]
    } else {
        dec_nat(n / 10).push(digit_char(n % 10))
    }
}

/// The decimal numeral of a signed value: a minus sign where negative.
pub open spec fn dec_int(n: int) -> Seq<char> {
    if n < 0 {
        seq!['-'] + dec_nat((-n) as nat)
    } else {
        dec_nat(n as nat)
    }
}

/// The decimal form of a coordinate of `h` half-tiles: a whole part and
/// exactly one fractional digit, `.0` or `.5`.
pub open spec fn dec_halves(h: int) -> Seq<char> {
    let a = if h < 0 {
        -h
    } else {
        h
    };
    (if h < 0 {
        seq!['-']
    } else {
        Seq::<char>::empty()
    }) + dec_nat((a / 2) as nat) + (if a % 2 == 0 {
        ".0"@
    } else {
        ".5"@
    })
}

/// Relies on String::push from std: appends exactly one character.
#[verifier::external_body]
pub(crate) fn push_char(out: &mut String, c: char)
    ensures
        final(out)@ == old(out)@.push(c),
{
    out.push(c);
}

fn digit_to_char(d: u64) -> (c: char)
    requires
        d < 10,
    ensures
        c == digit_char(d as nat),
{
    if d == 0 {
        '0'
    } else if d == 1 {
        '1'
    } else if d == 2 {
        '2'
    } else if d == 3 {
        '3'
    } else if d == 4 {
        '4'
    } else if d == 5 {
        '5'
    } else if d == 6 {
        '6'
    } else if d == 7 {
        '7'
    } else if d == 8 {
        '8'
    } else {
        '9'
    }
}

pub fn push_u64(out: &mut String, n: u64)
    ensures
        final(out)@ == old(out)@ + dec_nat(n as nat),
    decreases n,
{
    if n >= 10 {
        push_u64(out, n / 10);
    }
    let c = digit_to_char(n % 10);
    push_char(out, c);
    proof {
        if n < 10 {
            assert(old(out)@.push(c) =~= old(out)@ + seq![digit_char(n as nat)]);
        } else {
            assert((old(out)@ + dec_nat((n / 10) as nat)).push(c) =~= old(out)@ + dec_nat(
                (n / 10) as nat,
            ).push(c));
        }
    }
}

pub fn push_usize(out: &mut String, n: usize)
    ensures
        final(out)@ == old(out)@ + dec_nat(n as nat),
{
    push_u64(out, n as u64);
}

pub fn push_i32(out: &mut String, n: i32)
    ensures
        final(out)@ == old(out)@ + dec_int(n as int),
{
    if n < 0 {
        push_char(out, '-');
        let m: u64 = (-(n as i64)) as u64;
        push_u64(out, m);
        proof {
            assert(old(out)@.push('-') =~= old(out)@ + seq!['-']);
            assert(old(out)@ + seq!['-'] + dec_nat(m as nat) =~= old(out)@ + dec_int(n as int));
        }
    } else {
        push_u64(out, n as u64);
    }
}

/// Writes the coordinate of `h` half-tiles, e.g. `3` as `1.5` and `-1` as `-0.5`.
pub fn push_halves(out: &mut String, h: i32)
    ensures
        final(out)@ == old(out)@ + dec_halves(h as int),
{
    let ghost pre = old(out)@;
    let a: u64 = if h < 0 {
        push_char(out, '-');
        proof {
            assert(pre.push('-') =~= pre + seq!['-']);
        }
        (-(h as i64)) as u64
    } else {
        h as u64
    };
    let ghost sign: Seq<char> = if h < 0 {
        seq!['-']
    } else {
        Seq::<char>::empty()
    };
    proof {
        assert(out@ =~= pre + sign);
    }
    push_u64(out, a / 2);
    if a % 2 == 0 {
        out.append(".0");
    } else {
        out.append(".5");
    }
    proof {
        assert(out@ =~= pre + dec_halves(h as int));
    }
}

// ---------------------------------------------------------------------------
// JSON string escaping
// ---------------------------------------------------------------------------

pub open spec fn hex_char(d: nat) -> char {
    if d < 10 {
        digit_char(d)
    } else if d == 10 {
        'a'
    } else if d == 11 {
        'b'
    } else if d == 12 {
        'c'
    } else if d == 13 {
        'd'
    } else if d == 14 {
        'e'
    } else {
        'f'
    }
}

/// How one character appears inside a JSON string literal.
pub open spec fn esc_char(c: char) -> Seq<char> {
    if c == '"' {
        "\\\""@
    } else if c == '\\' {
        "\\\\"@
    } else if c == '\u{8}' {
        "\\b"@
    } else if c == '\u{9}' {
        "\\t"@
    } else if c == '\u{a}' {
        "\\n"@
    } else if c == '\u{c}' {
        "\\f"@
    } else if c == '\u{d}' {
        "\\r"@
    } else if (c as u32) < 0x20 {
        "\\u00"@ + seq![hex_char(((c as u32) / 16) as nat), hex_char(((c as u32) % 16) as nat)]
    } else {
        seq![c]
    }
}

pub open spec fn esc_str(s: Seq<char>) -> Seq<char>
    decreases s.len(),
{
    if s.len() == 0 {
        Seq::<char>::empty()
    } else {
        esc_str(s.drop_last()) + esc_char(s.last())
    }
}

/// A JSON string literal: quotes around the escaped characters.
pub open spec fn json_string(s: Seq<char>) -> Seq<char> {
    "\""@ + esc_str(s) + "\""@
}

fn hex_to_char(d: u32) -> (c: char)
    requires
        d < 16,
    ensures
        c == hex_char(d as nat),
{
    if d < 10 {
        digit_to_char(d as u64)
    } else if d == 10 {
        'a'
    } else if d == 11 {
        'b'
    } else if d == 12 {
        'c'
    } else if d == 13 {
        'd'
    } else if d == 14 {
        'e'
    } else {
        'f'
    }
}

fn push_escaped_char(out: &mut String, c: char)
    ensures
        final(out)@ == old(out)@ + esc_char(c),
{
    if c == '"' {
        out.append("\\\"");
    } else if c == '\\' {
        out.append("\\\\");
    } else if c == '\u{8}' {
        out.append("\\b");
    } else if c == '\u{9}' {
        out.append("\\t");
    } else if c == '\u{a}' {
        out.append("\\n");
    } else if c == '\u{c}' {
        out.append("\\f");
    } else if c == '\u{d}' {
        out.append("\\r");
    } else {
        let v = c as u32;
        if v < 0x20 {
            let ghost pre = out@;
            out.append("\\u00");
            let hi = hex_to_char(v / 16);
            push_char(out, hi);
            let lo = hex_to_char(v % 16);
            push_char(out, lo);
            proof {
                assert(out@ =~= pre + esc_char(c));
            }
        } else {
            push_char(out, c);
            proof {
                assert(old(out)@.push(c) =~= old(out)@ + seq![c]);
            }
        }
    }
}

/// Writes `s` as a JSON string literal, with the escaping of `json_string`.
pub fn push_json_string(out: &mut String, s: &str)
    ensures
        final(out)@ == old(out)@ + json_string(s@),
{
    let ghost pre = old(out)@;
    out.append("\"");
    let n = s.unicode_len();
    let mut i: usize = 0;
    while i < n
        invariant
            i <= n,
            n == s@.len(),
            out@ == pre + "\""@ + esc_str(s@.subrange(0, i as int)),
        decreases n - i,
    {
        let c = s.get_char(i);
        push_escaped_char(out, c);
        proof {
            let t = s@.subrange(0, (i + 1) as int);
            assert(t.drop_last() =~= s@.subrange(0, i as int));
            assert(t.last() == s@[i as int]);
            assert(out@ =~= pre + "\""@ + esc_str(t));
        }
        i += 1;
    }
    out.append("\"");
    proof {
        assert(s@.subrange(0, n as int) =~= s@);
        assert(out@ =~= pre + json_string(s@));
    }
}

// ---------------------------------------------------------------------------
// Comma-joined lists
// ---------------------------------------------------------------------------

/// The elements of `s`, each written by `f`, joined with commas.
pub open spec fn joined<T>(s: Seq<T>, f: spec_fn(T) -> Seq<char>) -> Seq<char>
    decreases s.len(),
{
    if s.len() == 0 {
        Seq::<char>::empty()
    } else if s.len() == 1 {
        f(s[0])
    } else {
        joined(s.drop_last(), f) + ","@ + f(s.last())
    }
}

/// Appending one element extends the joined text by a comma (when the list
/// was not empty) and the element's text.
pub proof fn lemma_joined_snoc<T>(s: Seq<T>, e: T, f: spec_fn(T) -> Seq<char>)
    ensures
        joined(s.push(e), f) == if s.len() == 0 {
            f(e)
        } else {
            joined(s, f) + ","@ + f(e)
        },
{
    let t = s.push(e);
    assert(t.drop_last() =~= s);
    assert(t.last() == e);
    if s.len() == 0 {
        assert(t.len() == 1);
        assert(t[0] == e);
    }
}

/// The texts of `s` joined with the separator `sep`.
pub open spec fn sep_joined(s: Seq<Seq<char>>, sep: Seq<char>) -> Seq<char>
    decreases s.len(),
{
    if s.len() == 0 {
        Seq::<char>::empty()
    } else if s.len() == 1 {
        s[0]
    } else {
        sep_joined(s.drop_last(), sep) + sep + s.last()
    }
}

pub proof fn lemma_sep_joined_snoc(s: Seq<Seq<char>>, e: Seq<char>, sep: Seq<char>)
    ensures
        sep_joined(s.push(e), sep) == if s.len() == 0 {
            e
        } else {
            sep_joined(s, sep) + sep + e
        },
{
    let t = s.push(e);
    assert(t.drop_last() =~= s);
    assert(t.last() == e);
    if s.len() == 0 {
        assert(t.len() == 1);
        assert(t[0] == e);
    }
}

/// The views of a list of strings.
pub open spec fn string_views(s: Seq<String>) -> Seq<Seq<char>> {
    s.map_values(|x: String| x@)
}

/// Appends the strings joined with `sep`, exactly `sep_joined`.
pub fn push_sep_joined(out: &mut String, items: &Vec<String>, sep: &str)
    ensures
        final(out)@ == old(out)@ + sep_joined(string_views(items@), sep@),
{
    let ghost pre = out@;
    let n = items.len();
    let mut i: usize = 0;
    while i < n
        invariant
            i <= n,
            n == items@.len(),
            out@ == pre + sep_joined(string_views(items@.subrange(0, i as int)), sep@),
        decreases n - i,
    {
        if i > 0 {
            out.append(sep);
        }
        out.append(items[i].as_str());
        proof {
            let sub = items@.subrange(0, i as int);
            lemma_sep_joined_snoc(string_views(sub), items@[i as int]@, sep@);
            assert(items@.subrange(0, (i + 1) as int) =~= sub.push(items@[i as int]));
            assert(string_views(sub.push(items@[i as int])) =~= string_views(sub).push(
                items@[i as int]@,
            ));
            assert(out@ =~= pre + sep_joined(
                string_views(items@.subrange(0, (i + 1) as int)),
                sep@,
            ));
        }
        i += 1;
    }
    proof {
        assert(items@.subrange(0, n as int) =~= items@);
    }
}

} // verus!
