//! Splitting a text at a separator, and joining lines.
use vstd::prelude::*;

verus! {

/// The pieces of `s` between the separators, in order: one more than the
/// separators, and an empty text gives one empty piece.
pub open spec fn split(s: Seq<char>, sep: char) -> Seq<Seq<char>>
    decreases s.len(),
{
    if s.len() == 0 {
        seq![Seq::<char>::empty()]
    } else {
        let prev = split(s.drop_last(), sep);
        if s.last() == sep {
            prev.push(Seq::<char>::empty())
        } else {
            prev.update(prev.len() - 1, prev.last().push(s.last()))
        }
    }
}

/// The lines joined, with the separator between each two.
pub open spec fn join(lines: Seq<Seq<char>>, sep: char) -> Seq<char>
    decreases lines.len(),
{
    if lines.len() == 0 {
        Seq::<char>::empty()
    } else if lines.len() == 1 {
        lines[0]
    } else {
        join(lines.drop_last(), sep).push(sep) + lines.last()
    }
}

/// The texts that a list of strings holds.
pub open spec fn texts_of(v: Seq<String>) -> Seq<Seq<char>> {
    v.map_values(|s: String| s@)
}

/// Whether no line holds the separator.
pub open spec fn free_of(lines: Seq<Seq<char>>, sep: char) -> bool {
    forall|i: int, j: int| 0 <= i < lines.len() && 0 <= j < lines[i].len() ==> #[trigger] lines[i][j] != sep
}

proof fn lemma_split_len(s: Seq<char>, sep: char)
    ensures
        split(s, sep).len() >= 1,
    decreases s.len(),
{
    if s.len() > 0 {
        lemma_split_len(s.drop_last(), sep);
    }
}

/// Splitting `s` followed by text free of the separator extends the last piece.
proof fn lemma_split_append_free(s: Seq<char>, t: Seq<char>, sep: char)
    requires
        forall|j: int| 0 <= j < t.len() ==> #[trigger] t[j] != sep,
    ensures
        split(s + t, sep) == split(s, sep).update(
            split(s, sep).len() - 1,
            split(s, sep).last() + t,
        ),
    decreases t.len(),
{
    lemma_split_len(s, sep);
    if t.len() == 0 {
        assert(s + t =~= s);
        assert(split(s, sep).last() + t =~= split(s, sep).last());
        assert(split(s, sep).update(split(s, sep).len() - 1, split(s, sep).last()) =~= split(s, sep));
    } else {
        let t0 = t.drop_last();
        lemma_split_append_free(s, t0, sep);
        assert((s + t).drop_last() =~= s + t0);
        assert((s + t).last() == t.last());
        let p = split(s, sep);
        assert((p.last() + t0).push(t.last()) =~= p.last() + t);
        assert(p.update(p.len() - 1, p.last() + t0).update(p.len() - 1, (p.last() + t0).push(t.last()))
            =~= p.update(p.len() - 1, p.last() + t));
    }
}

/// Splitting joined lines that are free of the separator gives the lines back.
pub proof fn lemma_split_join(lines: Seq<Seq<char>>, sep: char)
    requires
        lines.len() >= 1,
        free_of(lines, sep),
    ensures
        split(join(lines, sep), sep) == lines,
    decreases lines.len(),
{
    if lines.len() == 1 {
        let l = lines[0];
        assert(Seq::<char>::empty() + l =~= l);
        assert forall|j: int| 0 <= j < l.len() implies #[trigger] l[j] != sep by {
            assert(lines[0][j] != sep);
        }
        lemma_split_append_free(Seq::<char>::empty(), l, sep);
        assert(split(Seq::<char>::empty(), sep) == seq![Seq::<char>::empty()]);
        assert(seq![Seq::<char>::empty()].update(0, Seq::<char>::empty() + l) =~= lines);
    } else {
        let init = lines.drop_last();
        let l = lines.last();
        assert(free_of(init, sep)) by {
            assert forall|i: int, j: int| 0 <= i < init.len() && 0 <= j < init[i].len() implies #[trigger] init[i][j] != sep by {
                assert(init[i] == lines[i]);
            }
        }
        assert forall|j: int| 0 <= j < l.len() implies #[trigger] l[j] != sep by {
            assert(lines[lines.len() - 1][j] != sep);
        }
        lemma_split_join(init, sep);
        let head = join(init, sep).push(sep);
        assert(head.drop_last() =~= join(init, sep));
        assert(split(head, sep) == init.push(Seq::<char>::empty()));
        lemma_split_append_free(head, l, sep);
        assert(init.push(Seq::<char>::empty()).update(init.len() as int, Seq::<char>::empty() + l) =~= lines);
    }
}

/// Splits `s` at each `sep`.
pub fn split_text(s: &str, sep: char) -> (r: Vec<String>)
    ensures
        texts_of(r@) == split(s@, sep),
{
    let n = s.unicode_len();
    let mut pieces: Vec<String> = Vec::new();
    let mut start: usize = 0;
    let mut i: usize = 0;
    assert(s@.subrange(0, 0) =~= Seq::<char>::empty());
    assert(texts_of(pieces@) =~= Seq::<Seq<char>>::empty());
    assert(split(Seq::<char>::empty(), sep) =~= texts_of(pieces@).push(s@.subrange(0, 0)));
    while i < n
        invariant
            n == s@.len(),
            start <= i <= n,
            split(s@.subrange(0, i as int), sep) == texts_of(pieces@).push(s@.subrange(start as int, i as int)),
        decreases n - i,
    {
        let c = s.get_char(i);
        let ghost prefix = s@.subrange(0, i + 1);
        assert(prefix.drop_last() =~= s@.subrange(0, i as int));
        assert(prefix.last() == c);
        if c == sep {
            let piece = s.substring_char(start, i).to_owned();
            let ghost before = pieces@;
            pieces.push(piece);
            assert(texts_of(pieces@) =~= texts_of(before).push(piece@));
            start = i + 1;
            assert(s@.subrange(start as int, i + 1) =~= Seq::<char>::empty());
        } else {
            let ghost t = texts_of(pieces@);
            assert(s@.subrange(start as int, i + 1) =~= s@.subrange(start as int, i as int).push(c));
            assert(t.push(s@.subrange(start as int, i as int)).update(t.len() as int, s@.subrange(start as int, i as int).push(c))
                =~= t.push(s@.subrange(start as int, i + 1)));
        }
        i = i + 1;
    }
    let last = s.substring_char(start, n).to_owned();
    let ghost before = pieces@;
    pieces.push(last);
    assert(texts_of(pieces@) =~= texts_of(before).push(last@));
    assert(s@.subrange(0, n as int) =~= s@);
    pieces
}

/// Joins lines with a newline between each two.
pub fn join_lines(lines: &Vec<String>) -> (r: String)
    ensures
        r@ == join(texts_of(lines@), '\n'),
{
    let mut out = String::new();
    let mut i: usize = 0;
    while i < lines.len()
        invariant
            i <= lines@.len(),
            out@ == join(texts_of(lines@.subrange(0, i as int)), '\n'),
        decreases lines@.len() - i,
    {
        let ghost done = texts_of(lines@.subrange(0, i as int));
        let ghost next = texts_of(lines@.subrange(0, i + 1));
        assert(next.drop_last() =~= done);
        assert(next.last() == lines@[i as int]@);
        if i > 0 {
            proof {
                reveal_strlit("\n");
            }
            out.append("\n");
        }
        out.append(lines[i].as_str());
        if i == 0 {
            assert(next.len() == 1);
            assert(out@ =~= next[0]);
        } else {
            assert(out@ =~= join(done, '\n').push('\n') + next.last());
        }
        i = i + 1;
    }
    assert(lines@.subrange(0, lines@.len() as int) =~= lines@);
    out
}

/// Whether every character is an ASCII digit.
pub open spec fn all_digits(s: Seq<char>) -> bool {
    forall|i: int| 0 <= i < s.len() ==> '0' <= #[trigger] s[i] <= '9'
}

/// The number that a text of decimal digits writes.
pub open spec fn digits_value(s: Seq<char>) -> nat
    decreases s.len(),
{
    if s.len() == 0 {
        0
    } else {
        digits_value(s.drop_last()) * 10 + (s.last() as nat - '0' as nat) as nat
    }
}

/// The `u32` that a text writes: one or more decimal digits, and no more than
/// `u32::MAX`.
pub open spec fn decimal_u32(s: Seq<char>) -> Option<u32> {
    if s.len() > 0 && all_digits(s) && digits_value(s) <= u32::MAX {
        Some(digits_value(s) as u32)
    } else {
        None
    }
}

proof fn lemma_digits_value_grows(s: Seq<char>, i: int)
    requires
        0 <= i <= s.len(),
        all_digits(s),
    ensures
        digits_value(s.subrange(0, i)) <= digits_value(s),
    decreases s.len() - i,
{
    if i < s.len() {
        lemma_digits_value_grows(s, i + 1);
        assert(s.subrange(0, i + 1).drop_last() =~= s.subrange(0, i));
    } else {
        assert(s.subrange(0, i) =~= s);
    }
}

/// Reads a text of decimal digits as a `u32`.
pub fn parse_u32(s: &str) -> (r: Option<u32>)
    ensures
        r == decimal_u32(s@),
{
    let n = s.unicode_len();
    if n == 0 {
        return None;
    }
    let mut v: u64 = 0;
    let mut i: usize = 0;
    while i < n
        invariant
            n == s@.len(),
            i <= n,
            all_digits(s@.subrange(0, i as int)),
            v == digits_value(s@.subrange(0, i as int)),
            v <= u32::MAX,
        decreases n - i,
    {
        let c = s.get_char(i);
        let ghost next = s@.subrange(0, i + 1);
        assert(next.drop_last() =~= s@.subrange(0, i as int));
        if c < '0' || c > '9' {
            assert(!all_digits(s@));
            return None;
        }
        let d = (c as u32 - '0' as u32) as u64;
        v = v * 10 + d;
        if v > 0xffff_ffff {
            assert(all_digits(s@)
                ==> digits_value(s@) >= digits_value(next)) by {
                if all_digits(s@) {
                    lemma_digits_value_grows(s@, i + 1);
                }
            }
            return None;
        }
        i = i + 1;
    }
    assert(s@.subrange(0, n as int) =~= s@);
    Some(v as u32)
}

} // verus!
