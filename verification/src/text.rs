//! Text as sequences of characters: lines, splitting and joining, decimal numerals.

use vstd::prelude::*;
use vstd::string::*;
use vstd::std_specs::iter::IteratorSpec;

verus! {

broadcast use vstd::string::group_string_axioms;

/// `String::push` of the standard library: appends one character to the end
/// of the string and leaves the rest of it as it was.
pub assume_specification[ std::string::String::push ](s: &mut std::string::String, c: char)
    ensures
        final(s)@ == old(s)@.push(c),
;

/// The lines that a vector of strings holds, each as its characters.
pub open spec fn lines_of(v: Seq<String>) -> Seq<Seq<char>> {
    Seq::new(v.len(), |i: int| v[i]@)
}

/// The lines of a text: the pieces between its newline characters. A text
/// with `n` newlines has `n + 1` lines, some of which may be empty.
pub open spec fn split_lines(s: Seq<char>) -> Seq<Seq<char>>
    decreases s.len(),
{
    if s.len() == 0 {
        seq![Seq::<char>::empty()]
    } else {
        let before = split_lines(s.drop_last());
        if s.last() == '\n' {
            before.push(Seq::<char>::empty())
        } else {
            before.update(before.len() - 1, before.last().push(s.last()))
        }
    }
}

/// The text of a sequence of lines: each line followed by one newline.
pub open spec fn join_lines(lines: Seq<Seq<char>>) -> Seq<char>
    decreases lines.len(),
{
    if lines.len() == 0 {
        Seq::<char>::empty()
    } else {
        join_lines(lines.drop_last()) + lines.last() + seq!['\n']
    }
}

/// The number of characters in the text of `lines`, newlines counted.
pub open spec fn text_size(lines: Seq<Seq<char>>) -> nat
    decreases lines.len(),
{
    if lines.len() == 0 {
        0
    } else {
        text_size(lines.drop_last()) + lines.last().len() + 1
    }
}

/// No line holds a newline character.
pub open spec fn newline_free(lines: Seq<Seq<char>>) -> bool {
    forall|i: int, j: int|
        0 <= i < lines.len() && 0 <= j < lines[i].len() ==> #[trigger] lines[i][j] != '\n'
}

pub proof fn lemma_split_lines_nonempty(s: Seq<char>)
    ensures
        split_lines(s).len() >= 1,
    decreases s.len(),
{
    if s.len() > 0 {
        lemma_split_lines_nonempty(s.drop_last());
    }
}

pub proof fn lemma_split_lines_newline_free(s: Seq<char>)
    ensures
        newline_free(split_lines(s)),
    decreases s.len(),
{
    if s.len() > 0 {
        lemma_split_lines_nonempty(s.drop_last());
        lemma_split_lines_newline_free(s.drop_last());
    }
}

pub proof fn lemma_join_lines_len(lines: Seq<Seq<char>>)
    ensures
        join_lines(lines).len() == text_size(lines),
    decreases lines.len(),
{
    if lines.len() > 0 {
        lemma_join_lines_len(lines.drop_last());
    }
}

/// Writing out the lines of a text gives the text back, followed by the
/// newline that closes its last line.
pub proof fn lemma_join_split(s: Seq<char>)
    ensures
        join_lines(split_lines(s)) == s + seq!['\n'],
    decreases s.len(),
{
    if s.len() == 0 {
        let one = seq![Seq::<char>::empty()];
        assert(one.drop_last() =~= Seq::<Seq<char>>::empty());
        assert(join_lines(one.drop_last()) =~= Seq::<char>::empty());
        assert(join_lines(one) =~= s + seq!['\n']);
    } else {
        let init = s.drop_last();
        let before = split_lines(init);
        lemma_split_lines_nonempty(init);
        lemma_join_split(init);
        let head = join_lines(before.drop_last());
        assert(join_lines(before) == head + before.last() + seq!['\n']);
        assert(head + before.last() =~= init) by {
            assert((head + before.last() + seq!['\n']).drop_last() =~= head + before.last());
            assert((init + seq!['\n']).drop_last() =~= init);
        }
        if s.last() == '\n' {
            let after = before.push(Seq::<char>::empty());
            assert(after.drop_last() =~= before);
            assert(join_lines(after) =~= s + seq!['\n']);
        } else {
            let after = before.update(before.len() - 1, before.last().push(s.last()));
            assert(after.drop_last() =~= before.drop_last());
            assert(after.last() == before.last().push(s.last()));
            assert(s =~= init.push(s.last()));
            assert(head + before.last().push(s.last()) =~= (head + before.last()).push(s.last()));
            assert(join_lines(after) =~= s + seq!['\n']);
        }
    }
}

pub proof fn lemma_text_size_of_split(s: Seq<char>)
    ensures
        text_size(split_lines(s)) == s.len() + 1,
{
    lemma_join_split(s);
    lemma_join_lines_len(split_lines(s));
}

/// Every line, with its newline, is counted in the size of the text.
pub proof fn lemma_text_size_bounds(lines: Seq<Seq<char>>, i: int)
    requires
        0 <= i < lines.len(),
    ensures
        lines[i].len() + lines.len() <= text_size(lines),
    decreases lines.len(),
{
    lemma_text_size_ge_len(lines.drop_last());
    if i < lines.len() - 1 {
        lemma_text_size_bounds(lines.drop_last(), i);
    }
}

pub proof fn lemma_text_size_ge_len(lines: Seq<Seq<char>>)
    ensures
        lines.len() <= text_size(lines),
    decreases lines.len(),
{
    if lines.len() > 0 {
        lemma_text_size_ge_len(lines.drop_last());
    }
}

pub proof fn lemma_text_size_update(lines: Seq<Seq<char>>, i: int, line: Seq<char>)
    requires
        0 <= i < lines.len(),
    ensures
        text_size(lines.update(i, line)) == text_size(lines) - lines[i].len() + line.len(),
    decreases lines.len(),
{
    let after = lines.update(i, line);
    if i < lines.len() - 1 {
        lemma_text_size_update(lines.drop_last(), i, line);
        assert(after.drop_last() =~= lines.drop_last().update(i, line));
    } else {
        assert(after.drop_last() =~= lines.drop_last());
    }
}

pub proof fn lemma_text_size_insert(lines: Seq<Seq<char>>, i: int, line: Seq<char>)
    requires
        0 <= i <= lines.len(),
    ensures
        text_size(lines.insert(i, line)) == text_size(lines) + line.len() + 1,
    decreases lines.len(),
{
    let after = lines.insert(i, line);
    if i < lines.len() {
        lemma_text_size_insert(lines.drop_last(), i, line);
        assert(after.drop_last() =~= lines.drop_last().insert(i, line));
        assert(after.last() == lines.last());
    } else {
        assert(after.drop_last() =~= lines);
    }
}

pub proof fn lemma_text_size_remove(lines: Seq<Seq<char>>, i: int)
    requires
        0 <= i < lines.len(),
    ensures
        text_size(lines.remove(i)) == text_size(lines) - lines[i].len() - 1,
    decreases lines.len(),
{
    let after = lines.remove(i);
    if i < lines.len() - 1 {
        lemma_text_size_remove(lines.drop_last(), i);
        assert(after.drop_last() =~= lines.drop_last().remove(i));
        assert(after.last() == lines.last());
    } else {
        assert(after =~= lines.drop_last());
    }
}

/// The characters of a line, or none where there is no line.
pub fn to_chars(line: Option<&str>) -> (chars: Vec<char>)
    ensures
        chars@ == match line {
            Some(s) => s@,
            None => Seq::<char>::empty(),
        },
{
    let mut chars: Vec<char> = Vec::new();
    match line {
        None => {},
        Some(s) => {
            let mut it = s.chars();
            loop
                invariant
                    chars@ + it.remaining() == s@,
                    it.obeys_prophetic_iter_laws(),
                    it.decrease() is Some,
                ensures
                    chars@ == s@,
                decreases it.decrease()->0,
            {
                match it.next() {
                    Some(c) => {
                        chars.push(c);
                    },
                    None => {
                        break ;
                    },
                }
            }
        },
    }
    chars
}

/// Cuts a text into its lines at every newline character.
pub fn split_text(text: &str) -> (lines: Vec<String>)
    ensures
        lines_of(lines@) == split_lines(text@),
{
    let mut lines: Vec<String> = Vec::new();
    let mut cur = String::new();
    let mut it = text.chars();
    let ghost mut done: Seq<char> = Seq::empty();
    proof {
        assert(lines_of(lines@).push(cur@) =~= split_lines(done));
    }
    loop
        invariant
            done + it.remaining() == text@,
            lines_of(lines@).push(cur@) == split_lines(done),
            it.obeys_prophetic_iter_laws(),
            it.decrease() is Some,
        ensures
            lines_of(lines@).push(cur@) == split_lines(text@),
        decreases it.decrease()->0,
    {
        let ghost before = lines_of(lines@).push(cur@);
        match it.next() {
            Some(c) => {
                proof {
                    assert(done.push(c).drop_last() =~= done);
                    assert(done.push(c).last() == c);
                    assert(done.push(c) + it.remaining() =~= text@);
                    done = done.push(c);
                }
                if c == '\n' {
                    lines.push(cur);
                    cur = String::new();
                    assert(lines_of(lines@).push(cur@) =~= before.push(Seq::<char>::empty()));
                } else {
                    cur.push(c);
                    assert(lines_of(lines@).push(cur@) =~= before.update(
                        before.len() - 1,
                        before.last().push(c),
                    ));
                }
            },
            None => {
                assert(done =~= text@);
                break ;
            },
        }
    }
    lines.push(cur);
    assert(lines_of(lines@) =~= split_lines(text@));
    lines
}

/// Writes the lines out as one text, a newline after each.
pub fn join_text(lines: &Vec<String>) -> (text: String)
    ensures
        text@ == join_lines(lines_of(lines@)),
{
    let mut text = String::new();
    let mut i: usize = 0;
    while i < lines.len()
        invariant
            i <= lines.len(),
            text@ == join_lines(lines_of(lines@).take(i as int)),
        decreases lines.len() - i,
    {
        proof {
            let upto = lines_of(lines@).take(i + 1);
            assert(upto.drop_last() =~= lines_of(lines@).take(i as int));
            assert(upto.last() == lines@[i as int]@);
        }
        text.append(lines[i].as_str());
        text.push('\n');
        i = i + 1;
        assert(text@ =~= join_lines(lines_of(lines@).take(i as int)));
    }
    assert(lines_of(lines@).take(i as int) =~= lines_of(lines@));
    text
}

/// The character that writes a decimal digit.
pub open spec fn digit_char(d: int) -> char {
    if d == 0 {
        '0'
    } else if d == 1 {
        '1'
    } else if d == 2 {
        '2'
    } else if d == 3 {
        '3'
    } else if d == 4 {
        '4'
    } else if d == 5 {
        '5'
    } else if d == 6 {
        '6'
    } else if d == 7 {
        '7'
    } else if d == 8 {
        '8'
    } else {
        '9'
    }
}

/// A natural number written in decimal, without leading zeros.
pub open spec fn decimal(n: nat) -> Seq<char>
    decreases n,
{
    if n < 10 {
        seq![digit_char(n as int)]
    } else {
        decimal(n / 10).push(digit_char((n % 10) as int))
    }
}

/// An integer written in decimal, with a minus sign before a negative one.
pub open spec fn signed_decimal(i: int) -> Seq<char> {
    if i < 0 {
        seq!['-'] + decimal((-i) as nat)
    } else {
        decimal(i as nat)
    }
}

/// A larger number has at least as many digits.
pub proof fn lemma_decimal_len_monotone(a: nat, b: nat)
    requires
        a <= b,
    ensures
        1 <= decimal(a).len() <= decimal(b).len(),
    decreases b,
{
    if b >= 10 {
        if a >= 10 {
            lemma_decimal_len_monotone(a / 10, b / 10);
        } else {
            lemma_decimal_len_monotone(0, b / 10);
        }
    }
}

fn digit_of(d: u64) -> (c: char)
    requires
        d < 10,
    ensures
        c == digit_char(d as int),
{
    if d == 0 {
        '0'
    } else if d == 1 {
        '1'
    } else if d == 2 {
        '2'
    } else if d == 3 {
        '3'
    } else if d == 4 {
        '4'
    } else if d == 5 {
        '5'
    } else if d == 6 {
        '6'
    } else if d == 7 {
        '7'
    } else if d == 8 {
        '8'
    } else {
        '9'
    }
}

/// Appends the decimal digits of `n` to `out`.
pub fn push_decimal(n: u64, out: &mut Vec<char>)
    ensures
        final(out)@ == old(out)@ + decimal(n as nat),
    decreases n,
{
    if n >= 10 {
        push_decimal(n / 10, out);
    }
    out.push(digit_of(n % 10));
    assert(out@ =~= old(out)@ + decimal(n as nat));
}

/// Appends `i` in decimal to `out`, a minus sign first where it is negative.
pub fn push_signed_decimal(i: i64, out: &mut Vec<char>)
    ensures
        final(out)@ == old(out)@ + signed_decimal(i as int),
{
    if i < 0 {
        out.push('-');
        let magnitude: u64 = if i == i64::MIN {
            0x8000_0000_0000_0000u64
        } else {
            (-i) as u64
        };
        push_decimal(magnitude, out);
        assert(out@ =~= old(out)@ + signed_decimal(i as int));
    } else {
        push_decimal(i as u64, out);
    }
}

/// Appends the characters to the string in order.
pub fn push_chars(s: &mut String, chars: &Vec<char>)
    ensures
        final(s)@ == old(s)@ + chars@,
{
    let mut i: usize = 0;
    while i < chars.len()
        invariant
            i <= chars.len(),
            s@ == old(s)@ + chars@.take(i as int),
        decreases chars.len() - i,
    {
        s.push(chars[i]);
        i = i + 1;
        assert(s@ =~= old(s)@ + chars@.take(i as int));
    }
    assert(chars@.take(i as int) =~= chars@);
}

} // verus!
