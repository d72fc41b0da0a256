//! Verified text building blocks for the query deparser: decimal
//! rendering of integers, quote escaping for string literals, joining
//! of text fragments, and counting of substring occurrences.

use vstd::prelude::*;
use vstd::string::*;

verus! {

/// The character for one decimal digit value.
pub open spec fn digit_char(d: nat) -> char {
    if d == 0 {
        '0'
    } else if d == 1 {
        '1'
    } else if d == 2 {
        '2'
    } else if d == 3 {
        '3'
    } else if d == 4 {
        '4'
    } else if d == 5 {
        '5'
    } else if d == 6 {
        '6'
    } else if d == 7 {
        '7'
    } else if d == 8 {
        '8'
    } else {
        '9'
    }
}

/// Decimal digits of `n`, most significant first, with no leading zeros
/// (a single `'0'` for zero).
pub open spec fn dec_text(n: nat) -> Seq<char>
    decreases n,
{
    if n < 10 {
        seq![digit_char(n)]
    } else {
        dec_text(n / 10) + seq![digit_char(n % 10)]
    }
}

/// Signed decimal text: a leading `'-'` for negative numbers.
pub open spec fn int_text(i: int) -> Seq<char> {
    if i < 0 {
        seq!['-'] + dec_text((-i) as nat)
    } else {
        dec_text(i as nat)
    }
}

/// One character of a string literal as it is embedded in query text:
/// a quote or a backslash gets a backslash prefix.
pub open spec fn escape_char(c: char) -> Seq<char> {
    if c == '\'' || c == '\\' {
        seq!['\\', c]
    } else {
        seq![c]
    }
}

/// A whole string escaped for embedding between single quotes.
pub open spec fn escaped(s: Seq<char>) -> Seq<char>
    decreases s.len(),
{
    if s.len() == 0 {
        Seq::empty()
    } else {
        escape_char(s[0]) + escaped(s.skip(1))
    }
}

/// The fragments joined with `sep` between consecutive fragments.
pub open spec fn join_texts(parts: Seq<Seq<char>>, sep: Seq<char>) -> Seq<char>
    decreases parts.len(),
{
    if parts.len() == 0 {
        Seq::empty()
    } else if parts.len() == 1 {
        parts[0]
    } else {
        parts[0] + sep + join_texts(parts.skip(1), sep)
    }
}

/// How many positions of `hay` start an occurrence of `needle`.
pub open spec fn count_occ(hay: Seq<char>, needle: Seq<char>) -> nat
    decreases hay.len(),
{
    if needle.len() == 0 || hay.len() < needle.len() {
        0
    } else {
        (if hay.take(needle.len() as int) == needle {
            1nat
        } else {
            0nat
        }) + count_occ(hay.skip(1), needle)
    }
}

/// Counting occurrences distributes over concatenation when no
/// occurrence can span the seam: enough that the needle avoids either
/// the first character after the seam or the last one before it.
pub proof fn lemma_count_occ_concat(a: Seq<char>, b: Seq<char>, needle: Seq<char>)
    requires
        needle.len() > 0,
        a.len() == 0 || b.len() == 0 || !needle.contains(b[0]) || !needle.contains(a[a.len() - 1]),
    ensures
        count_occ(a + b, needle) == count_occ(a, needle) + count_occ(b, needle),
    decreases a.len(),
{
    if a.len() == 0 {
        assert(a + b =~= b);
    } else if (a + b).len() < needle.len() {
        assert(count_occ(a + b, needle) == 0);
        assert(count_occ(a, needle) == 0);
        assert(count_occ(b, needle) == 0);
    } else {
        let ab = a + b;
        assert(ab.skip(1) =~= a.skip(1) + b);
        if a.len() > 1 {
            assert(a.skip(1)[a.skip(1).len() - 1] == a[a.len() - 1]);
        }
        lemma_count_occ_concat(a.skip(1), b, needle);
        if a.len() >= needle.len() {
            assert(ab.take(needle.len() as int) =~= a.take(needle.len() as int));
        } else {
            // Only a seam-spanning occurrence could start here, and the
            // hypothesis rules the seam characters out of the needle.
            assert(b.len() > 0);
            if ab.take(needle.len() as int) == needle {
                assert(needle[a.len() as int] == ab[a.len() as int]);
                assert(ab[a.len() as int] == b[0]);
                assert(needle.contains(b[0]));
                assert(needle[a.len() - 1] == ab[a.len() - 1]);
                assert(ab[a.len() - 1] == a[a.len() - 1]);
                assert(needle.contains(a[a.len() - 1]));
                assert(false);
            }
            assert(count_occ(a, needle) == 0);
            assert(count_occ(a.skip(1), needle) == 0);
        }
    }
}

/// A text that never shows the needle's first character holds no
/// occurrence at all.
pub proof fn lemma_count_occ_zero(hay: Seq<char>, needle: Seq<char>)
    requires
        needle.len() > 0,
        !hay.contains(needle[0]),
    ensures
        count_occ(hay, needle) == 0,
    decreases hay.len(),
{
    if hay.len() >= needle.len() {
        if hay.take(needle.len() as int) == needle {
            assert(hay.take(needle.len() as int)[0] == hay[0]);
            assert(hay.contains(needle[0]));
            assert(false);
        }
        assert forall|j: int| 0 <= j < hay.skip(1).len() implies hay.skip(1)[j] != needle[0] by {
            assert(hay.skip(1)[j] == hay[j + 1]);
        }
        assert(!hay.skip(1).contains(needle[0]));
        lemma_count_occ_zero(hay.skip(1), needle);
    }
}

/// Joining fragments that are free of the needle, with a separator that
/// shows it exactly once and whose edge characters stay out of it,
/// yields exactly one occurrence per separator.
pub proof fn lemma_count_occ_join(parts: Seq<Seq<char>>, sep: Seq<char>, needle: Seq<char>)
    requires
        parts.len() > 0,
        needle.len() > 0,
        sep.len() > 0,
        count_occ(sep, needle) == 1,
        !needle.contains(sep[0]),
        !needle.contains(sep[sep.len() - 1]),
        forall|i: int| 0 <= i < parts.len() ==> count_occ(#[trigger] parts[i], needle) == 0,
    ensures
        count_occ(join_texts(parts, sep), needle) == parts.len() - 1,
    decreases parts.len(),
{
    if parts.len() > 1 {
        let rest = parts.skip(1);
        assert(forall|i: int| 0 <= i < rest.len() ==> #[trigger] rest[i] == parts[i + 1]);
        lemma_count_occ_join(rest, sep, needle);
        let tail = sep + join_texts(rest, sep);
        assert(join_texts(parts, sep) =~= parts[0] + tail);
        lemma_count_occ_concat(sep, join_texts(rest, sep), needle);
        assert(tail[0] == sep[0]);
        lemma_count_occ_concat(parts[0], tail, needle);
    }
}

/// Joining fragments that are free of the needle with a separator that
/// is also free of it yields a text free of it.
pub proof fn lemma_count_occ_join_zero(parts: Seq<Seq<char>>, sep: Seq<char>, needle: Seq<char>)
    requires
        needle.len() > 0,
        sep.len() > 0,
        count_occ(sep, needle) == 0,
        !needle.contains(sep[0]),
        !needle.contains(sep[sep.len() - 1]),
        forall|i: int| 0 <= i < parts.len() ==> count_occ(#[trigger] parts[i], needle) == 0,
    ensures
        count_occ(join_texts(parts, sep), needle) == 0,
    decreases parts.len(),
{
    if parts.len() == 0 {
        assert(count_occ(join_texts(parts, sep), needle) == 0);
    } else if parts.len() > 1 {
        let rest = parts.skip(1);
        assert(forall|i: int| 0 <= i < rest.len() ==> #[trigger] rest[i] == parts[i + 1]);
        lemma_count_occ_join_zero(rest, sep, needle);
        let tail = sep + join_texts(rest, sep);
        assert(join_texts(parts, sep) =~= parts[0] + tail);
        lemma_count_occ_concat(sep, join_texts(rest, sep), needle);
        assert(tail[0] == sep[0]);
        lemma_count_occ_concat(parts[0], tail, needle);
    }
}

pub proof fn lemma_escaped_push(s: Seq<char>, c: char)
    ensures
        escaped(s.push(c)) == escaped(s) + escape_char(c),
    decreases s.len(),
{
    if s.len() == 0 {
        assert(s.push(c)[0] == c);
        assert(s.push(c).skip(1) =~= Seq::<char>::empty());
        assert(escaped(s.push(c).skip(1)) == Seq::<char>::empty());
        assert(escaped(s.push(c)) == escape_char(c) + Seq::<char>::empty());
        assert(escaped(s) == Seq::<char>::empty());
        assert(escape_char(c) + Seq::<char>::empty() =~= Seq::<char>::empty() + escape_char(c));
    } else {
        assert(s.push(c).skip(1) =~= s.skip(1).push(c));
        lemma_escaped_push(s.skip(1), c);
        assert(s.push(c)[0] == s[0]);
        assert(escaped(s.push(c)) =~= escaped(s) + escape_char(c));
    }
}

pub proof fn lemma_join_texts_push(parts: Seq<Seq<char>>, sep: Seq<char>, p: Seq<char>)
    requires
        parts.len() > 0,
    ensures
        join_texts(parts.push(p), sep) == join_texts(parts, sep) + sep + p,
    decreases parts.len(),
{
    if parts.len() == 1 {
        assert(parts.push(p)[0] == parts[0]);
        assert(parts.push(p).skip(1) =~= seq![p]);
        assert(join_texts(seq![p], sep) == p);
        assert(join_texts(parts.push(p), sep) =~= join_texts(parts, sep) + sep + p);
    } else {
        assert(parts.push(p).skip(1) =~= parts.skip(1).push(p));
        lemma_join_texts_push(parts.skip(1), sep, p);
        assert(parts.push(p)[0] == parts[0]);
        assert(join_texts(parts.push(p), sep) =~= join_texts(parts, sep) + sep + p);
    }
}

/// Appends one character to a `String`.
///
/// Relies on std's `String::push`: it appends exactly the given
/// character and changes nothing else.
#[verifier::external_body]
pub(crate) fn push_char(s: &mut String, c: char)
    ensures
        final(s)@ == old(s)@.push(c),
{
    s.push(c);
}

/// One decimal digit as a string slice.
fn digit_str(d: u64) -> (r: &'static str)
    requires
        d < 10,
    ensures
        r@ == seq![digit_char(d as nat)],
{
    let r: &'static str = if d == 0 {
        "0"
    } else if d == 1 {
        "1"
    } else if d == 2 {
        "2"
    } else if d == 3 {
        "3"
    } else if d == 4 {
        "4"
    } else if d == 5 {
        "5"
    } else if d == 6 {
        "6"
    } else if d == 7 {
        "7"
    } else if d == 8 {
        "8"
    } else {
        "9"
    };
    proof {
        reveal_strlit("0");
        reveal_strlit("1");
        reveal_strlit("2");
        reveal_strlit("3");
        reveal_strlit("4");
        reveal_strlit("5");
        reveal_strlit("6");
        reveal_strlit("7");
        reveal_strlit("8");
        reveal_strlit("9");
        assert(r@ =~= seq![digit_char(d as nat)]);
    }
    r
}

/// Renders an unsigned number in decimal.
pub fn u64_to_dec(n: u64) -> (s: String)
    ensures
        s@ == dec_text(n as nat),
    decreases n,
{
    if n < 10 {
        String::from_str(digit_str(n))
    } else {
        let q = u64_to_dec(n / 10);
        q.concat(digit_str(n % 10))
    }
}

/// Renders a signed number in decimal.
pub fn i64_to_dec(v: i64) -> (s: String)
    ensures
        s@ == int_text(v as int),
{
    if v >= 0 {
        u64_to_dec(v as u64)
    } else {
        let wide: i128 = v as i128;
        let m: u64 = (-wide) as u64;
        assert(m as nat == (-(v as int)) as nat);
        let d = u64_to_dec(m);
        let mut s = String::from_str("-");
        s.append(d.as_str());
        proof {
            reveal_strlit("-");
            assert(s@ =~= int_text(v as int));
        }
        s
    }
}

/// Escapes every quote and backslash of `s` with a backslash.
pub fn escape_text(s: &str) -> (out: String)
    ensures
        out@ == escaped(s@),
{
    let n = s.unicode_len();
    let mut out = String::new();
    let mut i: usize = 0;
    while i < n
        invariant
            n == s@.len(),
            i <= n,
            out@ == escaped(s@.take(i as int)),
        decreases n - i,
    {
        let c = s.get_char(i);
        proof {
            assert(s@.take(i as int).push(c) =~= s@.take(i as int + 1));
            lemma_escaped_push(s@.take(i as int), c);
        }
        if c == '\'' || c == '\\' {
            push_char(&mut out, '\\');
        }
        push_char(&mut out, c);
        i = i + 1;
    }
    proof {
        assert(s@.take(n as int) =~= s@);
    }
    out
}

/// Joins the strings with `sep` between consecutive ones.
pub fn join_strings(parts: &Vec<String>, sep: &str) -> (out: String)
    ensures
        out@ == join_texts(parts.deep_view(), sep@),
{
    let mut out = String::new();
    let mut i: usize = 0;
    while i < parts.len()
        invariant
            i <= parts.len(),
            parts.deep_view().len() == parts.len(),
            out@ == join_texts(parts.deep_view().take(i as int), sep@),
        decreases parts.len() - i,
    {
        proof {
            assert(parts.deep_view()[i as int] == parts@[i as int]@);
            assert(parts.deep_view().take(i as int).push(parts.deep_view()[i as int]) =~= parts
                .deep_view()
                .take(i as int + 1));
            if i > 0 {
                lemma_join_texts_push(
                    parts.deep_view().take(i as int),
                    sep@,
                    parts.deep_view()[i as int],
                );
            }
        }
        if i > 0 {
            out.append(sep);
        }
        out.append(parts[i].as_str());
        i = i + 1;
    }
    proof {
        assert(parts.deep_view().take(parts.len() as int) =~= parts.deep_view());
    }
    out
}

} // verus!
