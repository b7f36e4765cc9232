//! Small verified building blocks for string output: decimal rendering,
//! padding, joining, and repetition.

use vstd::prelude::*;

verus! {

/// The decimal digit character for a value in `0..10`.
pub open spec fn digit_char(d: int) -> char {
    if d == 0 {
        '0'
    } else if d == 1 {
        '1'
    } else if d == 2 {
        '2'
    } else if d == 3 {
        '3'
    } else if d == 4 {
        '4'
    } else if d == 5 {
        '5'
    } else if d == 6 {
        '6'
    } else if d == 7 {
        '7'
    } else if d == 8 {
        '8'
    } else {
        '9'
    }
}

/// Decimal representation of `n`, most significant digit first, no sign
/// and no leading zeros (except for `n == 0`, which is `"0"`).
pub open spec fn dec_str(n: nat) -> Seq<char>
    decreases n,
{
    if n < 10 {
        seq![digit_char(n as int)]
    } else {
        dec_str(n / 10) + seq![digit_char((n % 10) as int)]
    }
}

/// `lines` joined with `sep` between consecutive elements.
pub open spec fn join_with(lines: Seq<Seq<char>>, sep: Seq<char>) -> Seq<char>
    decreases lines.len(),
{
    if lines.len() == 0 {
        Seq::empty()
    } else if lines.len() == 1 {
        lines[0]
    } else {
        join_with(lines.drop_last(), sep) + sep + lines.last()
    }
}

/// `n` copies of the character `c`.
pub open spec fn repeat_char(c: char, n: nat) -> Seq<char> {
    Seq::new(n, |i: int| c)
}

/// `s` padded on the right with spaces to at least `width` characters.
pub open spec fn pad_right(s: Seq<char>, width: nat) -> Seq<char> {
    if s.len() < width {
        s + repeat_char(' ', (width - s.len()) as nat)
    } else {
        s
    }
}

/// Relies on `String::push`: appends exactly the one given character.
#[verifier::external_body]
pub(crate) fn push_char(s: &mut String, c: char)
    ensures
        final(s)@ == old(s)@ + seq![c],
{
    s.push(c);
}

fn digit_to_char(d: u64) -> (c: char)
    requires
        d < 10,
    ensures
        c == digit_char(d as int),
{
    if d == 0 {
        '0'
    } else if d == 1 {
        '1'
    } else if d == 2 {
        '2'
    } else if d == 3 {
        '3'
    } else if d == 4 {
        '4'
    } else if d == 5 {
        '5'
    } else if d == 6 {
        '6'
    } else if d == 7 {
        '7'
    } else if d == 8 {
        '8'
    } else {
        '9'
    }
}

/// Renders `n` in decimal.
pub fn u64_to_string(n: u64) -> (s: String)
    ensures
        s@ == dec_str(n as nat),
    decreases n,
{
    if n < 10 {
        let mut s = String::new();
        let c = digit_to_char(n);
        push_char(&mut s, c);
        s
    } else {
        let mut s = u64_to_string(n / 10);
        let c = digit_to_char(n % 10);
        push_char(&mut s, c);
        assert(s@ == dec_str((n / 10) as nat) + seq![digit_char((n % 10) as int)]);
        s
    }
}

/// Appends `n` copies of `c` to `s`.
pub fn append_repeated(s: &mut String, c: char, n: usize)
    ensures
        final(s)@ == old(s)@ + repeat_char(c, n as nat),
{
    let mut i: usize = 0;
    while i < n
        invariant
            i <= n,
            s@ == old(s)@ + repeat_char(c, i as nat),
        decreases n - i,
    {
        push_char(s, c);
        assert(repeat_char(c, i as nat) + seq![c] =~= repeat_char(c, (i + 1) as nat));
        i = i + 1;
    }
    assert(s@ =~= old(s)@ + repeat_char(c, n as nat));
}

/// Renders `n` in decimal, left-aligned in a field of at least four
/// characters.
pub fn u64_to_string_pad4(n: u64) -> (s: String)
    ensures
        s@ == pad_right(dec_str(n as nat), 4),
{
    let mut s = u64_to_string(n);
    let len = s.as_str().unicode_len();
    if len < 4 {
        append_repeated(&mut s, ' ', 4 - len);
    }
    s
}

proof fn lemma_join_with_step(lines: Seq<Seq<char>>, sep: Seq<char>, i: int)
    requires
        0 < i < lines.len(),
    ensures
        join_with(lines.take(i + 1), sep) == join_with(lines.take(i), sep) + sep + lines[i],
{
    assert(lines.take(i + 1).drop_last() =~= lines.take(i));
    assert(lines.take(i + 1).last() == lines[i]);
}

/// Joins the given lines with the separator between consecutive elements.
pub fn join_strings(lines: &Vec<String>, sep: &str) -> (r: String)
    ensures
        r@ == join_with(lines.deep_view(), sep@),
{
    let mut r = String::new();
    let mut i: usize = 0;
    while i < lines.len()
        invariant
            i <= lines.len(),
            lines.deep_view().len() == lines.len(),
            r@ == join_with(lines.deep_view().take(i as int), sep@),
        decreases lines.len() - i,
    {
        if i > 0 {
            r.append(sep);
        }
        r.append(lines[i].as_str());
        proof {
            if i == 0 {
                assert(lines.deep_view().take(1) =~= seq![lines.deep_view()[0]]);
                assert(join_with(lines.deep_view().take(1), sep@) == lines.deep_view()[0]);
            } else {
                lemma_join_with_step(lines.deep_view(), sep@, i as int);
            }
            assert(lines.deep_view()[i as int] == lines[i as int]@);
        }
        i = i + 1;
    }
    assert(lines.deep_view().take(lines.len() as int) =~= lines.deep_view());
    r
}

} // verus!
