//! Text building blocks: decimal rendering, JSON string escaping, and
//! the compact form of a timestamp used in file names.

use vstd::prelude::*;

verus! {

/// The decimal digit character for `d` in 0..=9.
pub open spec fn spec_digit(d: int) -> char {
    if d == 0 {
        '0'
    } else if d == 1 {
        '1'
    } else if d == 2 {
        '2'
    } else if d == 3 {
        '3'
    } else if d == 4 {
        '4'
    } else if d == 5 {
        '5'
    } else if d == 6 {
        '6'
    } else if d == 7 {
        '7'
    } else if d == 8 {
        '8'
    } else {
        '9'
    }
}

/// The lower-case hexadecimal digit character for `d` in 0..=15.
pub open spec fn spec_hex_digit(d: int) -> char {
    if d < 10 {
        spec_digit(d)
    } else if d == 10 {
        'a'
    } else if d == 11 {
        'b'
    } else if d == 12 {
        'c'
    } else if d == 13 {
        'd'
    } else if d == 14 {
        'e'
    } else {
        'f'
    }
}

/// The decimal writing of `n`, without sign or leading zeros.
pub open spec fn spec_dec(n: int) -> Seq<char>
    recommends
        n >= 0,
    decreases n,
{
    if n < 10 {
        seq![spec_digit(n)]
    } else {
        spec_dec(n / 10).push(spec_digit(n % 10))
    }
}

/// A character's image under a per-character rewriting, applied to a
/// whole sequence.
pub open spec fn mapped_chars(f: spec_fn(char) -> Seq<char>, s: Seq<char>) -> Seq<char>
    decreases s.len(),
{
    if s.len() == 0 {
        Seq::empty()
    } else {
        f(s[0]) + mapped_chars(f, s.subrange(1, s.len() as int))
    }
}

/// Per-character rewriting distributes over concatenation.
pub proof fn lemma_mapped_chars_concat(f: spec_fn(char) -> Seq<char>, a: Seq<char>, b: Seq<char>)
    ensures
        mapped_chars(f, a + b) == mapped_chars(f, a) + mapped_chars(f, b),
    decreases a.len(),
{
    if a.len() == 0 {
        assert(a + b =~= b);
        assert(mapped_chars(f, a) + mapped_chars(f, b) =~= mapped_chars(f, b));
    } else {
        let a1 = a.subrange(1, a.len() as int);
        assert((a + b).subrange(1, (a + b).len() as int) =~= a1 + b);
        lemma_mapped_chars_concat(f, a1, b);
        assert((a + b)[0] == a[0]);
        assert(mapped_chars(f, a + b) =~= mapped_chars(f, a) + mapped_chars(f, b));
    }
}

/// A sequence whose characters are all kept verbatim maps to itself.
pub proof fn lemma_mapped_chars_identity(f: spec_fn(char) -> Seq<char>, s: Seq<char>)
    requires
        forall|i: int| 0 <= i < s.len() ==> f(s[i]) == seq![s[i]],
    ensures
        mapped_chars(f, s) == s,
    decreases s.len(),
{
    if s.len() == 0 {
        assert(mapped_chars(f, s) =~= s);
    } else {
        let s1 = s.subrange(1, s.len() as int);
        lemma_mapped_chars_identity(f, s1);
        assert(mapped_chars(f, s) =~= s);
    }
}

/// A single character maps to its own image.
pub proof fn lemma_mapped_chars_single(f: spec_fn(char) -> Seq<char>, c: char)
    ensures
        mapped_chars(f, seq![c]) == f(c),
{
    let s = seq![c];
    assert(s.subrange(1, 1) =~= Seq::<char>::empty());
    assert(mapped_chars(f, s.subrange(1, 1)) == Seq::<char>::empty());
    assert(mapped_chars(f, s) == f(s[0]) + mapped_chars(f, s.subrange(1, 1)));
    assert(f(c) + Seq::<char>::empty() =~= f(c));
}

/// True of the characters a JSON string must write escaped.
pub open spec fn spec_needs_escape(c: char) -> bool {
    c == '"' || c == '\\' || (c as u32) < 32
}

/// The JSON writing of one string character.
pub open spec fn escaped_char(c: char) -> Seq<char> {
    if c == '"' {
        seq!['\\', '"']
    } else if c == '\\' {
        seq!['\\', '\\']
    } else if c == '\n' {
        seq!['\\', 'n']
    } else if c == '\r' {
        seq!['\\', 'r']
    } else if c == '\t' {
        seq!['\\', 't']
    } else if (c as u32) < 32 {
        seq!['\\', 'u', '0', '0', spec_hex_digit((c as u32) as int / 16), spec_hex_digit(
            (c as u32) as int % 16,
        )]
    } else {
        seq![c]
    }
}

/// The body of the JSON writing of a string (without the quotes).
pub open spec fn escaped(s: Seq<char>) -> Seq<char> {
    mapped_chars(|c: char| escaped_char(c), s)
}

/// One character of a timestamp, rewritten for use in a file name:
/// the separators vanish and the date-time divider becomes '_'.
pub open spec fn compact_char(c: char) -> Seq<char> {
    if c == '-' || c == ':' {
        Seq::empty()
    } else if c == 'T' {
        seq!['_']
    } else {
        seq![c]
    }
}

/// The compact form of a timestamp: `YYYY-MM-DDTHH:MM:SS` becomes
/// `YYYYMMDD_HHMMSS`.
pub open spec fn compacted(s: Seq<char>) -> Seq<char> {
    mapped_chars(|c: char| compact_char(c), s)
}

/// The decimal digit for `d` in 0..=9, as a one-character string.
fn digit_str(d: u32) -> (r: &'static str)
    requires
        d < 10,
    ensures
        r@ == seq![spec_digit(d as int)],
{
    proof {
        reveal_strlit("0");
        reveal_strlit("1");
        reveal_strlit("2");
        reveal_strlit("3");
        reveal_strlit("4");
        reveal_strlit("5");
        reveal_strlit("6");
        reveal_strlit("7");
        reveal_strlit("8");
        reveal_strlit("9");
    }
    let r: &'static str = match d {
        0 => "0",
        1 => "1",
        2 => "2",
        3 => "3",
        4 => "4",
        5 => "5",
        6 => "6",
        7 => "7",
        8 => "8",
        _ => "9",
    };
    proof {
        assert(r@ =~= seq![spec_digit(d as int)]);
    }
    r
}

/// The lower-case hexadecimal digit for `d` in 0..=15, as a string.
fn hex_digit_str(d: u32) -> (r: &'static str)
    requires
        d < 16,
    ensures
        r@ == seq![spec_hex_digit(d as int)],
{
    if d < 10 {
        digit_str(d)
    } else {
        proof {
            reveal_strlit("a");
            reveal_strlit("b");
            reveal_strlit("c");
            reveal_strlit("d");
            reveal_strlit("e");
            reveal_strlit("f");
        }
        let r: &'static str = match d {
            10 => "a",
            11 => "b",
            12 => "c",
            13 => "d",
            14 => "e",
            _ => "f",
        };
        proof {
            assert(r@ =~= seq![spec_hex_digit(d as int)]);
        }
        r
    }
}

/// The decimal writing of `n`.
pub fn u32_to_string(n: u32) -> (r: String)
    ensures
        r@ == spec_dec(n as int),
    decreases n,
{
    if n < 10 {
        String::from_str(digit_str(n))
    } else {
        let mut s: String = u32_to_string(n / 10);
        s.append(digit_str(n % 10));
        proof {
            assert(s@ =~= spec_dec(n as int));
        }
        s
    }
}

/// True when a JSON string must write `c` escaped.
fn needs_escape(c: char) -> (r: bool)
    ensures
        r == spec_needs_escape(c),
{
    c == '"' || c == '\\' || (c as u32) < 32
}

/// Appends the JSON writing of one escaped character.
fn push_escaped_char(out: &mut String, c: char)
    requires
        spec_needs_escape(c),
    ensures
        final(out)@ == old(out)@ + escaped_char(c),
{
    if c == '"' {
        proof {
            reveal_strlit("\\\"");
        }
        out.append("\\\"");
        proof {
            assert(final(out)@ =~= old(out)@ + escaped_char(c));
        }
    } else if c == '\\' {
        proof {
            reveal_strlit("\\\\");
        }
        out.append("\\\\");
        proof {
            assert(final(out)@ =~= old(out)@ + escaped_char(c));
        }
    } else if c == '\n' {
        proof {
            reveal_strlit("\\n");
        }
        out.append("\\n");
        proof {
            assert(final(out)@ =~= old(out)@ + escaped_char(c));
        }
    } else if c == '\r' {
        proof {
            reveal_strlit("\\r");
        }
        out.append("\\r");
        proof {
            assert(final(out)@ =~= old(out)@ + escaped_char(c));
        }
    } else if c == '\t' {
        proof {
            reveal_strlit("\\t");
        }
        out.append("\\t");
        proof {
            assert(final(out)@ =~= old(out)@ + escaped_char(c));
        }
    } else {
        let v: u32 = c as u32;
        proof {
            reveal_strlit("\\u00");
        }
        out.append("\\u00");
        out.append(hex_digit_str(v / 16));
        out.append(hex_digit_str(v % 16));
        proof {
            assert(final(out)@ =~= old(out)@ + escaped_char(c));
        }
    }
}

/// The body of the JSON writing of `s` (without the quotes).
#[verifier::loop_isolation(false)]
pub fn escape_json(s: &str) -> (out: String)
    ensures
        out@ == escaped(s@),
{
    let ghost f = |c: char| escaped_char(c);
    let n: usize = s.unicode_len();
    let mut out: String = String::new();
    let mut start: usize = 0;
    let mut i: usize = 0;
    while i < n
        invariant
            start <= i <= n,
            n == s@.len(),
            out@ == mapped_chars(f, s@.subrange(0, start as int)),
            forall|j: int| start <= j < i ==> !spec_needs_escape(s@[j]),
        decreases n - i,
    {
        let c: char = s.get_char(i);
        if needs_escape(c) {
            out.append(s.substring_char(start, i));
            push_escaped_char(&mut out, c);
            proof {
                let pre = s@.subrange(0, start as int);
                let run = s@.subrange(start as int, i as int);
                assert forall|j: int| 0 <= j < run.len() implies f(run[j]) == seq![run[j]] by {
                    assert(run[j] == s@[start + j]);
                    assert(!spec_needs_escape(run[j]));
                }
                lemma_mapped_chars_identity(f, run);
                lemma_mapped_chars_concat(f, pre, run);
                assert(pre + run =~= s@.subrange(0, i as int));
                lemma_mapped_chars_single(f, c);
                lemma_mapped_chars_concat(f, s@.subrange(0, i as int), seq![c]);
                assert(s@.subrange(0, i as int) + seq![c] =~= s@.subrange(0, i as int + 1));
                assert(out@ =~= mapped_chars(f, s@.subrange(0, i as int + 1)));
            }
            start = i + 1;
        }
        i = i + 1;
    }
    out.append(s.substring_char(start, n));
    proof {
        let pre = s@.subrange(0, start as int);
        let run = s@.subrange(start as int, n as int);
        assert forall|j: int| 0 <= j < run.len() implies f(run[j]) == seq![run[j]] by {
            assert(run[j] == s@[start + j]);
            assert(!spec_needs_escape(run[j]));
        }
        lemma_mapped_chars_identity(f, run);
        lemma_mapped_chars_concat(f, pre, run);
        assert(pre + run =~= s@.subrange(0, n as int));
        assert(s@.subrange(0, n as int) =~= s@);
        assert(out@ =~= escaped(s@));
    }
    out
}

/// The compact form of a timestamp, for use in a file name.
#[verifier::loop_isolation(false)]
pub fn compact_stamp(s: &str) -> (out: String)
    ensures
        out@ == compacted(s@),
{
    let ghost f = |c: char| compact_char(c);
    let n: usize = s.unicode_len();
    let mut out: String = String::new();
    let mut start: usize = 0;
    let mut i: usize = 0;
    while i < n
        invariant
            start <= i <= n,
            n == s@.len(),
            out@ == mapped_chars(f, s@.subrange(0, start as int)),
            forall|j: int|
                start <= j < i ==> !(s@[j] == '-' || s@[j] == ':' || s@[j] == 'T'),
        decreases n - i,
    {
        let c: char = s.get_char(i);
        if c == '-' || c == ':' || c == 'T' {
            out.append(s.substring_char(start, i));
            if c == 'T' {
                proof {
                    reveal_strlit("_");
                }
                out.append("_");
            }
            proof {
                let pre = s@.subrange(0, start as int);
                let run = s@.subrange(start as int, i as int);
                assert forall|j: int| 0 <= j < run.len() implies f(run[j]) == seq![run[j]] by {
                    assert(run[j] == s@[start + j]);
                }
                lemma_mapped_chars_identity(f, run);
                lemma_mapped_chars_concat(f, pre, run);
                assert(pre + run =~= s@.subrange(0, i as int));
                lemma_mapped_chars_single(f, c);
                lemma_mapped_chars_concat(f, s@.subrange(0, i as int), seq![c]);
                assert(s@.subrange(0, i as int) + seq![c] =~= s@.subrange(0, i as int + 1));
                assert(out@ =~= mapped_chars(f, s@.subrange(0, i as int + 1)));
            }
            start = i + 1;
        }
        i = i + 1;
    }
    out.append(s.substring_char(start, n));
    proof {
        let pre = s@.subrange(0, start as int);
        let run = s@.subrange(start as int, n as int);
        assert forall|j: int| 0 <= j < run.len() implies f(run[j]) == seq![run[j]] by {
            assert(run[j] == s@[start + j]);
        }
        lemma_mapped_chars_identity(f, run);
        lemma_mapped_chars_concat(f, pre, run);
        assert(pre + run =~= s@.subrange(0, n as int));
        assert(s@.subrange(0, n as int) =~= s@);
        assert(out@ =~= compacted(s@));
    }
    out
}

} // verus!
