//! Character-level helpers: string equality and conversions between
//! `String` and `Vec<char>`, on which the decoders and the tail wire
//! format are built.

use vstd::prelude::*;

verus! {

/// Character-by-character equality of two string slices.
pub fn str_eq(a: &str, b: &str) -> (r: bool)
    ensures
        r == (a@ == b@),
{
    let a_len = a.unicode_len();
    let b_len = b.unicode_len();
    if a_len != b_len {
        proof {
            assert(a@ != b@);
        }
        return false;
    }
    let mut i: usize = 0;
    while i < a_len
        invariant
            0 <= i <= a_len,
            a_len == a@.len(),
            a_len == b@.len(),
            forall|k: int| 0 <= k < i ==> a@[k] == b@[k],
        decreases a_len - i,
    {
        if a.get_char(i) != b.get_char(i) {
            return false;
        }
        i += 1;
    }
    proof {
        assert(a@ =~= b@);
    }
    true
}

/// Relies on `String::push`: appends one character to the string.
#[verifier::external_body]
pub fn push_char(s: &mut String, c: char)
    ensures
        final(s)@ == old(s)@.push(c),
{
    s.push(c);
}

/// The characters of a string slice, as a vector.
pub fn str_chars(s: &str) -> (v: Vec<char>)
    ensures
        v@ == s@,
{
    let len = s.unicode_len();
    let mut v: Vec<char> = Vec::new();
    let mut i: usize = 0;
    while i < len
        invariant
            0 <= i <= len,
            len == s@.len(),
            v@ == s@.subrange(0, i as int),
        decreases len - i,
    {
        let c = s.get_char(i);
        v.push(c);
        proof {
            assert(v@ =~= s@.subrange(0, i + 1 as int));
        }
        i += 1;
    }
    proof {
        assert(v@ =~= s@);
    }
    v
}

/// A string made of the given characters.
pub fn chars_string(v: &Vec<char>) -> (s: String)
    ensures
        s@ == v@,
{
    let mut s = String::new();
    let mut i: usize = 0;
    while i < v.len()
        invariant
            0 <= i <= v.len(),
            s@ == v@.subrange(0, i as int),
        decreases v.len() - i,
    {
        push_char(&mut s, v[i]);
        proof {
            assert(s@ =~= v@.subrange(0, i + 1 as int));
        }
        i += 1;
    }
    proof {
        assert(s@ =~= v@);
    }
    s
}

/// A decimal digit.
pub open spec fn is_digit(c: char) -> bool {
    '0' <= c && c <= '9'
}

/// The value of a decimal digit character.
pub open spec fn digit_val(c: char) -> nat {
    (c as int - '0' as int) as nat
}

/// The character of a decimal digit below ten.
pub open spec fn digit_char(d: nat) -> char {
    if d == 0 {
        '0'
    } else if d == 1 {
        '1'
    } else if d == 2 {
        '2'
    } else if d == 3 {
        '3'
    } else if d == 4 {
        '4'
    } else if d == 5 {
        '5'
    } else if d == 6 {
        '6'
    } else if d == 7 {
        '7'
    } else if d == 8 {
        '8'
    } else {
        '9'
    }
}

/// The decimal rendering of a number, most significant digit first,
/// without sign or leading zeroes (zero itself renders as `0`).
pub open spec fn spec_digits(n: nat) -> Seq<char>
    decreases n,
{
    if n < 10 {
        seq![digit_char(n)]
    } else {
        spec_digits(n / 10).push(digit_char(n % 10))
    }
}

/// Every character of the sequence is a decimal digit.
pub open spec fn all_digits(s: Seq<char>) -> bool {
    forall|i: int| 0 <= i < s.len() ==> is_digit(#[trigger] s[i])
}

/// The number that a sequence of decimal digits denotes.
pub open spec fn digits_value(s: Seq<char>) -> nat
    decreases s.len(),
{
    if s.len() == 0 {
        0
    } else {
        digits_value(s.drop_last()) * 10 + digit_val(s.last())
    }
}

/// A digit character round-trips through its value.
pub proof fn lemma_digit_char_val(d: nat)
    requires
        d < 10,
    ensures
        is_digit(digit_char(d)),
        digit_val(digit_char(d)) == d,
{
}

/// The decimal rendering of `n` is made of digits and denotes `n`.
pub proof fn lemma_digits_value_of_spec_digits(n: nat)
    ensures
        spec_digits(n).len() >= 1,
        all_digits(spec_digits(n)),
        digits_value(spec_digits(n)) == n,
    decreases n,
{
    if n < 10 {
        lemma_digit_char_val(n);
        let s = spec_digits(n);
        assert(s == seq![digit_char(n)]);
        assert(s.len() == 1);
        assert(s.last() == digit_char(n));
        assert(s.drop_last() =~= Seq::<char>::empty());
        assert(digits_value(s.drop_last()) == 0);
        assert(digits_value(s) == digits_value(s.drop_last()) * 10 + digit_val(s.last()));
        assert(digits_value(s) == n);
    } else {
        lemma_digits_value_of_spec_digits(n / 10);
        lemma_digit_char_val(n % 10);
        let s = spec_digits(n);
        assert(s.drop_last() =~= spec_digits(n / 10));
        assert(s.len() >= 1);
        assert(s.last() == digit_char(n % 10));
        assert(digits_value(s) == digits_value(s.drop_last()) * 10 + digit_val(s.last()));
        assert(digits_value(s) == (n / 10) * 10 + n % 10);
        vstd::arithmetic::div_mod::lemma_fundamental_div_mod(n as int, 10);
        assert(n == 10 * (n as int / 10) + n as int % 10);
        assert(digits_value(s) == n);
    }
}

fn digit_char_exec(d: usize) -> (c: char)
    requires
        d < 10,
    ensures
        c == digit_char(d as nat),
{
    match d {
        0 => '0',
        1 => '1',
        2 => '2',
        3 => '3',
        4 => '4',
        5 => '5',
        6 => '6',
        7 => '7',
        8 => '8',
        _ => '9',
    }
}

/// Appends the decimal rendering of `n`.
pub fn push_digits(n: usize, out: &mut Vec<char>)
    ensures
        final(out)@ == old(out)@ + spec_digits(n as nat),
    decreases n,
{
    if n >= 10 {
        push_digits(n / 10, out);
    }
    out.push(digit_char_exec(n % 10));
    proof {
        if n < 10 {
            assert(out@ =~= old(out)@ + spec_digits(n as nat));
        } else {
            assert(out@ =~= old(out)@ + spec_digits(n as nat));
        }
    }
}

/// The decimal rendering of a number as characters.
pub fn format_usize(n: usize) -> (v: Vec<char>)
    ensures
        v@ == spec_digits(n as nat),
{
    let mut v: Vec<char> = Vec::new();
    push_digits(n, &mut v);
    proof {
        assert(v@ =~= spec_digits(n as nat));
    }
    v
}

fn digit_val_exec(c: char) -> (d: usize)
    requires
        is_digit(c),
    ensures
        d == digit_val(c),
        d < 10,
{
    (c as u32 - '0' as u32) as usize
}

/// A value prefixed by further digits can only grow.
proof fn lemma_digits_value_push_ge(s: Seq<char>, c: char)
    ensures
        digits_value(s.push(c)) >= digits_value(s),
{
    assert(s.push(c).drop_last() =~= s);
    assert(s.push(c).last() == c);
}

/// Extending a digit string never lowers its value.
proof fn lemma_digits_value_extend_ge(s: Seq<char>, i: int)
    requires
        0 <= i <= s.len(),
    ensures
        digits_value(s) >= digits_value(s.subrange(0, i)),
    decreases s.len() - i,
{
    if i < s.len() {
        lemma_digits_value_extend_ge(s, i + 1);
        assert(s.subrange(0, i + 1) =~= s.subrange(0, i).push(s[i]));
        lemma_digits_value_push_ge(s.subrange(0, i), s[i]);
    } else {
        assert(s.subrange(0, i) =~= s);
    }
}

/// Parses the characters of `v` from `from` on as an unsigned decimal
/// number. Fails on an empty range, a non-digit, or a value that does
/// not fit.
pub fn parse_usize_from(v: &Vec<char>, from: usize) -> (r: Option<usize>)
    requires
        from <= v@.len(),
    ensures
        match r {
            Some(n) => {
                &&& from < v@.len()
                &&& all_digits(v@.subrange(from as int, v@.len() as int))
                &&& n as nat == digits_value(v@.subrange(from as int, v@.len() as int))
            },
            None => {
                ||| from == v@.len()
                ||| !all_digits(v@.subrange(from as int, v@.len() as int))
                ||| digits_value(v@.subrange(from as int, v@.len() as int)) > usize::MAX
            },
        },
{
    let ghost whole = v@.subrange(from as int, v@.len() as int);
    if from == v.len() {
        return None;
    }
    let mut acc: usize = 0;
    let mut i: usize = from;
    while i < v.len()
        invariant
            from <= i <= v@.len(),
            whole == v@.subrange(from as int, v@.len() as int),
            all_digits(v@.subrange(from as int, i as int)),
            acc as nat == digits_value(v@.subrange(from as int, i as int)),
        decreases v@.len() - i,
    {
        let c = v[i];
        proof {
            assert(whole[i - from] == v@[i as int]);
        }
        if !('0' <= c && c <= '9') {
            return None;
        }
        let d = digit_val_exec(c);
        let ghost pre = v@.subrange(from as int, i as int);
        let acc10 = match acc.checked_mul(10) {
            Some(x) => x,
            None => {
                proof {
                    assert(pre.push(c) =~= v@.subrange(from as int, i + 1 as int));
                    assert(pre.push(c).drop_last() =~= pre);
                    assert(pre.push(c).last() == c);
                    lemma_digits_value_push_ge(pre, c);
                    lemma_digits_value_extend_ge(whole, i + 1 - from);
                    assert(whole.subrange(0, i + 1 - from) =~= v@.subrange(
                        from as int,
                        i + 1 as int,
                    ));
                }
                return None;
            },
        };
        let next = match acc10.checked_add(d) {
            Some(x) => x,
            None => {
                proof {
                    assert(pre.push(c) =~= v@.subrange(from as int, i + 1 as int));
                    assert(pre.push(c).drop_last() =~= pre);
                    assert(pre.push(c).last() == c);
                    lemma_digits_value_extend_ge(whole, i + 1 - from);
                    assert(whole.subrange(0, i + 1 - from) =~= v@.subrange(
                        from as int,
                        i + 1 as int,
                    ));
                }
                return None;
            },
        };
        proof {
            assert(pre.push(c) =~= v@.subrange(from as int, i + 1 as int));
            assert(pre.push(c).drop_last() =~= pre);
            assert(pre.push(c).last() == c);
        }
        acc = next;
        i += 1;
    }
    proof {
        assert(v@.subrange(from as int, i as int) =~= whole);
    }
    Some(acc)
}

/// Splitting a character sequence at every occurrence of `sep`.
/// The empty sequence splits into one empty piece.
pub open spec fn spec_split(s: Seq<char>, sep: char) -> Seq<Seq<char>>
    decreases s.len(),
{
    if s.len() == 0 {
        seq![Seq::<char>::empty()]
    } else if s[0] == sep {
        seq![Seq::<char>::empty()] + spec_split(s.skip(1), sep)
    } else {
        let rest = spec_split(s.skip(1), sep);
        seq![seq![s[0]] + rest[0]] + rest.skip(1)
    }
}

/// Joining pieces with `sep` between each two.
pub open spec fn spec_join(parts: Seq<Seq<char>>, sep: char) -> Seq<char>
    decreases parts.len(),
{
    if parts.len() == 0 {
        Seq::<char>::empty()
    } else if parts.len() == 1 {
        parts[0]
    } else {
        parts[0] + seq![sep] + spec_join(parts.skip(1), sep)
    }
}

/// A split has at least one piece.
pub proof fn lemma_split_len(s: Seq<char>, sep: char)
    ensures
        spec_split(s, sep).len() >= 1,
    decreases s.len(),
{
    if s.len() != 0 {
        lemma_split_len(s.skip(1), sep);
    }
}

/// How a split grows when one character is appended: a separator opens
/// a new empty piece, any other character lands in the last piece.
pub proof fn lemma_split_push(s: Seq<char>, c: char, sep: char)
    ensures
        c == sep ==> spec_split(s.push(c), sep) == spec_split(s, sep).push(
            Seq::<char>::empty(),
        ),
        c != sep ==> spec_split(s.push(c), sep) == spec_split(s, sep).update(
            spec_split(s, sep).len() - 1,
            spec_split(s, sep).last().push(c),
        ),
    decreases s.len(),
{
    reveal_with_fuel(spec_split, 3);
    lemma_split_len(s, sep);
    if s.len() == 0 {
        if c == sep {
            assert(s.push(c)[0] == sep);
            assert(s.push(c).skip(1) =~= Seq::<char>::empty());
            assert(spec_split(s.push(c), sep) =~~= spec_split(s, sep).push(
                Seq::<char>::empty(),
            ));
        } else {
            assert(s.push(c)[0] == c);
            assert(s.push(c).skip(1) =~= Seq::<char>::empty());
            assert(seq![c] + Seq::<char>::empty() =~= seq![c]);
            assert(spec_split(s, sep).last().push(c) =~= seq![c]);
            assert(spec_split(s.push(c), sep) =~~= spec_split(s, sep).update(
                spec_split(s, sep).len() - 1,
                spec_split(s, sep).last().push(c),
            ));
        }
    } else {
        lemma_split_push(s.skip(1), c, sep);
        lemma_split_len(s.skip(1), sep);
        assert(s.push(c)[0] == s[0]);
        assert(s.push(c).skip(1) =~= s.skip(1).push(c));
        let t = spec_split(s.skip(1), sep);
        if c == sep {
            if s[0] == sep {
                assert(spec_split(s.push(c), sep) =~~= spec_split(s, sep).push(
                    Seq::<char>::empty(),
                ));
            } else {
                assert(t.push(Seq::<char>::empty())[0] == t[0]);
                assert(t.push(Seq::<char>::empty()).skip(1) =~= t.skip(1).push(
                    Seq::<char>::empty(),
                ));
                assert(spec_split(s.push(c), sep) =~~= spec_split(s, sep).push(
                    Seq::<char>::empty(),
                ));
            }
        } else {
            let tl = t.update(t.len() - 1, t.last().push(c));
            if s[0] == sep {
                assert(spec_split(s.push(c), sep) =~~= spec_split(s, sep).update(
                    spec_split(s, sep).len() - 1,
                    spec_split(s, sep).last().push(c),
                ));
            } else {
                if t.len() == 1 {
                    assert(tl[0] == t[0].push(c));
                    assert(tl.skip(1) =~= t.skip(1));
                    assert(spec_split(s.push(c), sep) =~~= spec_split(s, sep).update(
                        spec_split(s, sep).len() - 1,
                        spec_split(s, sep).last().push(c),
                    ));
                } else {
                    assert(tl[0] == t[0]);
                    assert(tl.skip(1) =~= t.skip(1).update(t.skip(1).len() - 1,
                        t.skip(1).last().push(c)));
                    assert(spec_split(s.push(c), sep) =~~= spec_split(s, sep).update(
                        spec_split(s, sep).len() - 1,
                        spec_split(s, sep).last().push(c),
                    ));
                }
            }
        }
    }
}

/// How a join grows when one piece is appended.
pub proof fn lemma_join_push(parts: Seq<Seq<char>>, p: Seq<char>, sep: char)
    ensures
        parts.len() == 0 ==> spec_join(parts.push(p), sep) == p,
        parts.len() >= 1 ==> spec_join(parts.push(p), sep) == spec_join(parts, sep)
            + seq![sep] + p,
    decreases parts.len(),
{
    reveal_with_fuel(spec_join, 3);
    if parts.len() == 0 {
        assert(spec_join(parts.push(p), sep) == parts.push(p)[0]);
        assert(parts.push(p)[0] == p);
    } else if parts.len() == 1 {
        assert(parts.push(p).skip(1) =~= seq![p]);
        assert(spec_join(seq![p], sep) == p);
        assert(spec_join(parts.push(p), sep) == parts[0] + seq![sep] + p);
    } else {
        lemma_join_push(parts.skip(1), p, sep);
        assert(parts.push(p).skip(1) =~= parts.skip(1).push(p));
        assert(spec_join(parts.push(p), sep) == parts[0] + seq![sep] + (spec_join(
            parts.skip(1),
            sep,
        ) + seq![sep] + p));
        assert(parts[0] + seq![sep] + (spec_join(parts.skip(1), sep) + seq![sep] + p) =~= (
        parts[0] + seq![sep] + spec_join(parts.skip(1), sep)) + seq![sep] + p);
    }
}

/// A piece free of the separator splits into itself alone.
pub proof fn lemma_split_no_sep(p: Seq<char>, sep: char)
    requires
        !p.contains(sep),
    ensures
        spec_split(p, sep) == seq![p],
    decreases p.len(),
{
    reveal_with_fuel(spec_split, 2);
    if p.len() == 0 {
        assert(spec_split(p, sep) =~~= seq![p]);
    } else {
        assert(!p.drop_last().contains(sep)) by {
            assert(forall|i: int|
                0 <= i < p.drop_last().len() ==> p.drop_last()[i] == #[trigger] p[i]);
        }
        lemma_split_no_sep(p.drop_last(), sep);
        assert(p[p.len() - 1] != sep);
        lemma_split_push(p.drop_last(), p.last(), sep);
        assert(p.drop_last().push(p.last()) =~= p);
        assert(spec_split(p, sep) =~~= seq![p]);
    }
}

/// Splitting after appending a separator and a separator-free piece
/// appends that piece to the split.
pub proof fn lemma_split_append_piece(s: Seq<char>, p: Seq<char>, sep: char)
    requires
        !p.contains(sep),
    ensures
        spec_split(s + seq![sep] + p, sep) == spec_split(s, sep).push(p),
    decreases p.len(),
{
    lemma_split_len(s, sep);
    if p.len() == 0 {
        lemma_split_push(s, sep, sep);
        assert(s + seq![sep] + p =~= s.push(sep));
        assert(spec_split(s + seq![sep] + p, sep) =~~= spec_split(s, sep).push(p));
    } else {
        assert(!p.drop_last().contains(sep)) by {
            assert(forall|i: int|
                0 <= i < p.drop_last().len() ==> p.drop_last()[i] == #[trigger] p[i]);
        }
        lemma_split_append_piece(s, p.drop_last(), sep);
        assert(p[p.len() - 1] != sep);
        lemma_split_push(s + seq![sep] + p.drop_last(), p.last(), sep);
        assert((s + seq![sep] + p.drop_last()).push(p.last()) =~= s + seq![sep] + p);
        let t = spec_split(s, sep).push(p.drop_last());
        assert(t.last() == p.drop_last());
        assert(t.update(t.len() - 1, p.drop_last().push(p.last())) =~~= spec_split(
            s,
            sep,
        ).push(p.drop_last().push(p.last())));
        assert(p.drop_last().push(p.last()) =~= p);
        assert(spec_split(s + seq![sep] + p, sep) =~~= spec_split(s, sep).push(p));
    }
}

/// Joining separator-free pieces and splitting again gives the pieces
/// back.
pub proof fn lemma_split_join(parts: Seq<Seq<char>>, sep: char)
    requires
        parts.len() >= 1,
        forall|i: int| 0 <= i < parts.len() ==> !(#[trigger] parts[i]).contains(sep),
    ensures
        spec_split(spec_join(parts, sep), sep) == parts,
    decreases parts.len(),
{
    if parts.len() == 1 {
        lemma_split_no_sep(parts[0], sep);
        assert(spec_split(spec_join(parts, sep), sep) =~~= parts);
    } else {
        let front = parts.drop_last();
        assert(forall|i: int| 0 <= i < front.len() ==> front[i] == #[trigger] parts[i]);
        lemma_split_join(front, sep);
        lemma_join_push(front, parts.last(), sep);
        assert(front.push(parts.last()) =~= parts);
        assert(spec_join(parts, sep) == spec_join(front, sep) + seq![sep] + parts.last());
        lemma_split_append_piece(spec_join(front, sep), parts.last(), sep);
        assert(spec_split(spec_join(parts, sep), sep) =~~= parts);
    }
}

/// Splits a character vector at every occurrence of `sep`.
pub fn split_chars(v: &Vec<char>, sep: char) -> (parts: Vec<Vec<char>>)
    ensures
        parts.deep_view() == spec_split(v@, sep),
{
    let mut parts: Vec<Vec<char>> = Vec::new();
    let mut cur: Vec<char> = Vec::new();
    let mut i: usize = 0;
    proof {
        assert(parts.deep_view().push(cur@) =~~= spec_split(v@.subrange(0, 0), sep)) by {
            assert(v@.subrange(0, 0) =~= Seq::<char>::empty());
        }
    }
    while i < v.len()
        invariant
            0 <= i <= v@.len(),
            parts.deep_view().push(cur@) == spec_split(v@.subrange(0, i as int), sep),
        decreases v@.len() - i,
    {
        let ghost pre = v@.subrange(0, i as int);
        let ghost old_parts = parts.deep_view();
        let ghost old_cur = cur@;
        let c = v[i];
        proof {
            lemma_split_push(pre, c, sep);
            assert(pre.push(c) =~= v@.subrange(0, i + 1 as int));
        }
        if c == sep {
            parts.push(cur);
            cur = Vec::new();
            proof {
                assert(parts.deep_view() =~~= old_parts.push(old_cur));
                assert(parts.deep_view().push(cur@) =~~= spec_split(
                    v@.subrange(0, i + 1 as int),
                    sep,
                ));
            }
        } else {
            cur.push(c);
            proof {
                let t = old_parts.push(old_cur);
                assert(t.last() == old_cur);
                assert(parts.deep_view() =~~= old_parts);
                assert(parts.deep_view().push(cur@) =~~= t.update(
                    t.len() - 1,
                    old_cur.push(c),
                ));
                assert(parts.deep_view().push(cur@) =~~= spec_split(
                    v@.subrange(0, i + 1 as int),
                    sep,
                ));
            }
        }
        i += 1;
    }
    proof {
        assert(v@.subrange(0, i as int) =~= v@);
    }
    let ghost before = parts.deep_view();
    parts.push(cur);
    proof {
        assert(parts.deep_view() =~~= before.push(cur@));
    }
    parts
}

/// Joins pieces with `sep` between each two.
pub fn join_chars(parts: &Vec<Vec<char>>, sep: char) -> (out: Vec<char>)
    requires
        parts@.len() >= 1,
    ensures
        out@ == spec_join(parts.deep_view(), sep),
{
    let mut out: Vec<char> = Vec::new();
    let mut i: usize = 0;
    while i < parts.len()
        invariant
            0 <= i <= parts@.len(),
            i == 0 ==> out@ == Seq::<char>::empty(),
            i >= 1 ==> out@ == spec_join(parts.deep_view().subrange(0, i as int), sep),
        decreases parts@.len() - i,
    {
        let ghost prefix = parts.deep_view().subrange(0, i as int);
        if i > 0 {
            out.push(sep);
        }
        let piece = &parts[i];
        let mut j: usize = 0;
        let ghost mid = out@;
        while j < piece.len()
            invariant
                0 <= j <= piece@.len(),
                out@ == mid + piece@.subrange(0, j as int),
            decreases piece@.len() - j,
        {
            out.push(piece[j]);
            proof {
                assert(mid + piece@.subrange(0, j + 1 as int) =~= (mid + piece@.subrange(
                    0,
                    j as int,
                )).push(piece@[j as int]));
            }
            j += 1;
        }
        proof {
            assert(piece@.subrange(0, piece@.len() as int) =~= piece@);
            lemma_join_push(prefix, piece@, sep);
            assert(prefix.push(piece@) =~~= parts.deep_view().subrange(0, i + 1 as int));
            if i == 0 {
                assert(out@ =~= piece@);
            } else {
                assert(out@ =~= spec_join(prefix, sep) + seq![sep] + piece@);
            }
        }
        i += 1;
    }
    proof {
        assert(parts.deep_view().subrange(0, i as int) =~= parts.deep_view());
    }
    out
}

/// A line the decoders skip: blank, or a `#` comment.
pub open spec fn spec_comment_or_blank(s: Seq<char>) -> bool {
    s.len() == 0 || s[0] == '#'
}

/// The first line at or after `pos` that a decoder does not skip, or
/// the length when none is left.
pub open spec fn spec_next_content_line(lines: Seq<Seq<char>>, pos: int) -> int
    recommends
        0 <= pos <= lines.len(),
    decreases lines.len() - pos when 0 <= pos <= lines.len()
{
    if pos >= lines.len() {
        lines.len() as int
    } else if spec_comment_or_blank(lines[pos]) {
        spec_next_content_line(lines, pos + 1)
    } else {
        pos
    }
}

/// Where the next content line lies: between `pos` and the end, with
/// nothing but skipped lines before it.
pub proof fn lemma_next_content_line(lines: Seq<Seq<char>>, pos: int)
    requires
        0 <= pos <= lines.len(),
    ensures
        pos <= spec_next_content_line(lines, pos) <= lines.len(),
        spec_next_content_line(lines, pos) < lines.len() ==> !spec_comment_or_blank(
            lines[spec_next_content_line(lines, pos)],
        ),
        forall|k: int| pos <= k < spec_next_content_line(lines, pos)
            ==> spec_comment_or_blank(#[trigger] lines[k]),
    decreases lines.len() - pos,
{
    if pos < lines.len() && spec_comment_or_blank(lines[pos]) {
        lemma_next_content_line(lines, pos + 1);
    }
}

/// Tests a line for being blank or a comment.
pub fn is_comment_or_blank(line: &str) -> (r: bool)
    ensures
        r == spec_comment_or_blank(line@),
{
    let len = line.unicode_len();
    if len == 0 {
        true
    } else {
        line.get_char(0) == '#'
    }
}

/// The whitespace characters on which tokens are separated.
pub open spec fn is_space(c: char) -> bool {
    c == ' ' || c == '\t' || c == '\n' || c == '\r' || c == '\u{b}' || c == '\u{c}'
}

/// Tests a character for being token-separating whitespace.
pub fn is_space_exec(c: char) -> (r: bool)
    ensures
        r == is_space(c),
{
    c == ' ' || c == '\t' || c == '\n' || c == '\r' || c == '\u{b}' || c == '\u{c}'
}

/// The whitespace-separated tokens of a character sequence: maximal
/// runs of non-space characters, in order.
pub open spec fn spec_tokens(s: Seq<char>) -> Seq<Seq<char>>
    decreases s.len(),
{
    if s.len() == 0 {
        Seq::<Seq<char>>::empty()
    } else if is_space(s[0]) {
        spec_tokens(s.skip(1))
    } else {
        let rest = spec_tokens(s.skip(1));
        if s.len() > 1 && !is_space(s[1]) {
            seq![seq![s[0]] + rest[0]] + rest.skip(1)
        } else {
            seq![seq![s[0]]] + rest
        }
    }
}

/// A sequence that starts with a non-space character has a first
/// token, and that token starts with that character.
proof fn lemma_tokens_nonempty(s: Seq<char>)
    requires
        s.len() > 0,
        !is_space(s[0]),
    ensures
        spec_tokens(s).len() >= 1,
    decreases s.len(),
{
    if s.len() > 1 && !is_space(s[1]) {
        lemma_tokens_nonempty(s.skip(1));
    }
}

/// How the token list grows when one character is appended.
pub proof fn lemma_tokens_push(s: Seq<char>, c: char)
    ensures
        is_space(c) ==> spec_tokens(s.push(c)) == spec_tokens(s),
        !is_space(c) && (s.len() == 0 || is_space(s.last())) ==> spec_tokens(s.push(c))
            == spec_tokens(s).push(seq![c]),
        !is_space(c) && s.len() > 0 && !is_space(s.last()) ==> spec_tokens(s).len() >= 1
            && spec_tokens(s.push(c)) == spec_tokens(s).update(
            spec_tokens(s).len() - 1,
            spec_tokens(s).last().push(c),
        ),
    decreases s.len(),
{
    reveal_with_fuel(spec_tokens, 3);
    if s.len() == 0 {
        if is_space(c) {
            assert(s.push(c).skip(1) =~= Seq::<char>::empty());
            assert(spec_tokens(s.push(c)) =~~= spec_tokens(s));
        } else {
            assert(s.push(c).skip(1) =~= Seq::<char>::empty());
            assert(spec_tokens(s.push(c)) =~~= spec_tokens(s).push(seq![c]));
        }
    } else {
        lemma_tokens_push(s.skip(1), c);
        assert(s.push(c)[0] == s[0]);
        assert(s.push(c).skip(1) =~= s.skip(1).push(c));
        let t = spec_tokens(s.skip(1));
        if s.len() == 1 {
            if is_space(s[0]) {
                assert(spec_tokens(s) == t);
                if is_space(c) {
                    assert(spec_tokens(s.push(c)) =~~= spec_tokens(s));
                } else {
                    assert(spec_tokens(s.push(c)) =~~= spec_tokens(s).push(seq![c]));
                }
            } else {
                if is_space(c) {
                    assert(s.push(c).len() > 1 && is_space(s.push(c)[1]));
                    assert(spec_tokens(s.push(c)) =~~= spec_tokens(s));
                } else {
                    assert(s.push(c)[1] == c);
                    assert(spec_tokens(s.push(c).skip(1)) =~~= seq![seq![c]]);
                    assert(spec_tokens(s) =~~= seq![seq![s[0]]]);
                    assert(spec_tokens(s.push(c)) =~~= spec_tokens(s).update(
                        spec_tokens(s).len() - 1,
                        spec_tokens(s).last().push(c),
                    ));
                }
            }
        } else {
            assert(s.skip(1).len() > 0);
            assert(s.skip(1).last() == s.last());
            assert(s.push(c)[1] == s[1]);
            assert(s.skip(1)[0] == s[1]);
            if is_space(s[0]) {
                assert(spec_tokens(s) == t);
                assert(spec_tokens(s.push(c)) == spec_tokens(s.skip(1).push(c)));
                if !is_space(c) && !is_space(s.last()) {
                    lemma_tokens_nonempty_of_tail(s.skip(1));
                }
            } else {
                if is_space(s[1]) {
                    assert(spec_tokens(s) == seq![seq![s[0]]] + t);
                    if is_space(c) {
                        assert(spec_tokens(s.push(c)) =~~= spec_tokens(s));
                    } else if is_space(s.last()) {
                        assert(spec_tokens(s.push(c)) =~~= spec_tokens(s).push(seq![c]));
                    } else {
                        lemma_tokens_nonempty_of_tail(s.skip(1));
                        let u = t.update(t.len() - 1, t.last().push(c));
                        assert((seq![seq![s[0]]] + t).last() == t.last());
                        assert(spec_tokens(s.push(c)) =~~= spec_tokens(s).update(
                            spec_tokens(s).len() - 1,
                            spec_tokens(s).last().push(c),
                        ));
                    }
                } else {
                    lemma_tokens_nonempty(s.skip(1));
                    assert(spec_tokens(s) == seq![seq![s[0]] + t[0]] + t.skip(1));
                    if is_space(c) {
                        assert(spec_tokens(s.push(c)) =~~= spec_tokens(s));
                    } else if is_space(s.last()) {
                        assert(t.push(seq![c])[0] == t[0]);
                        assert(t.push(seq![c]).skip(1) =~= t.skip(1).push(seq![c]));
                        assert(spec_tokens(s.push(c)) =~~= spec_tokens(s).push(seq![c]));
                    } else {
                        lemma_tokens_nonempty_of_tail(s.skip(1));
                        let u = t.update(t.len() - 1, t.last().push(c));
                        if t.len() == 1 {
                            assert(u[0] == t[0].push(c));
                            assert(u.skip(1) =~= t.skip(1));
                            assert(spec_tokens(s.push(c)) =~~= spec_tokens(s).update(
                                spec_tokens(s).len() - 1,
                                spec_tokens(s).last().push(c),
                            ));
                        } else {
                            assert(u[0] == t[0]);
                            assert(u.skip(1) =~= t.skip(1).update(
                                t.skip(1).len() - 1,
                                t.skip(1).last().push(c),
                            ));
                            assert((seq![seq![s[0]] + t[0]] + t.skip(1)).last() == t.last());
                            assert(spec_tokens(s.push(c)) =~~= spec_tokens(s).update(
                                spec_tokens(s).len() - 1,
                                spec_tokens(s).last().push(c),
                            ));
                        }
                    }
                }
            }
        }
    }
}

/// A sequence whose last character is not a space has a token.
proof fn lemma_tokens_nonempty_of_tail(s: Seq<char>)
    requires
        s.len() > 0,
        !is_space(s.last()),
    ensures
        spec_tokens(s).len() >= 1,
    decreases s.len(),
{
    if s.len() == 1 {
    } else {
        assert(s.skip(1).last() == s.last());
        lemma_tokens_nonempty_of_tail(s.skip(1));
        if !is_space(s[0]) {
            lemma_tokens_nonempty(s);
        }
    }
}

/// The whitespace-separated tokens of a character vector.
pub fn whitespace_tokens(v: &Vec<char>) -> (parts: Vec<Vec<char>>)
    ensures
        parts.deep_view() == spec_tokens(v@),
{
    let mut parts: Vec<Vec<char>> = Vec::new();
    let mut cur: Vec<char> = Vec::new();
    let mut i: usize = 0;
    proof {
        assert(v@.subrange(0, 0) =~= Seq::<char>::empty());
        assert(parts.deep_view() =~~= spec_tokens(v@.subrange(0, 0)));
    }
    while i < v.len()
        invariant
            0 <= i <= v@.len(),
            cur@.len() == 0 ==> {
                &&& parts.deep_view() == spec_tokens(v@.subrange(0, i as int))
                &&& (i == 0 || is_space(v@[i - 1]))
            },
            cur@.len() > 0 ==> {
                &&& parts.deep_view().push(cur@) == spec_tokens(v@.subrange(0, i as int))
                &&& i > 0 && !is_space(v@[i - 1])
            },
        decreases v@.len() - i,
    {
        let ghost pre = v@.subrange(0, i as int);
        let ghost old_parts = parts.deep_view();
        let ghost old_cur = cur@;
        let c = v[i];
        proof {
            lemma_tokens_push(pre, c);
            assert(pre.push(c) =~= v@.subrange(0, i + 1 as int));
            if pre.len() > 0 {
                assert(pre.last() == v@[i - 1]);
            }
        }
        if is_space_exec(c) {
            if cur.len() > 0 {
                parts.push(cur);
                cur = Vec::new();
                proof {
                    assert(parts.deep_view() =~~= old_parts.push(old_cur));
                }
            }
        } else {
            cur.push(c);
            proof {
                if old_cur.len() == 0 {
                    assert(cur@ =~= seq![c]);
                } else {
                    let t = old_parts.push(old_cur);
                    assert(t.last() == old_cur);
                    assert(t.update(t.len() - 1, old_cur.push(c)) =~~= old_parts.push(
                        old_cur.push(c),
                    ));
                }
            }
        }
        i += 1;
    }
    proof {
        assert(v@.subrange(0, i as int) =~= v@);
    }
    if cur.len() > 0 {
        let ghost before = parts.deep_view();
        parts.push(cur);
        proof {
            assert(parts.deep_view() =~~= before.push(cur@));
        }
    }
    parts
}

/// The sequence ends in the given suffix.
pub open spec fn spec_ends_with(s: Seq<char>, suffix: Seq<char>) -> bool {
    s.len() >= suffix.len() && s.skip(s.len() - suffix.len()) == suffix
}

/// Tests a string for a suffix.
pub fn str_ends_with(s: &str, suffix: &str) -> (r: bool)
    ensures
        r == spec_ends_with(s@, suffix@),
{
    let n = s.unicode_len();
    let m = suffix.unicode_len();
    if n < m {
        return false;
    }
    let off = n - m;
    let mut i: usize = 0;
    while i < m
        invariant
            0 <= i <= m,
            m <= n,
            off == n - m,
            n == s@.len(),
            m == suffix@.len(),
            forall|k: int| 0 <= k < i ==> s@[off + k] == suffix@[k],
        decreases m - i,
    {
        if s.get_char(off + i) != suffix.get_char(i) {
            proof {
                assert(s@.skip(off as int)[i as int] == s@[off + i]);
            }
            return false;
        }
        i += 1;
    }
    proof {
        assert forall|k: int| 0 <= k < m implies s@.skip(off as int)[k] == suffix@[k] by {
            assert(s@.skip(off as int)[k] == s@[off + k]);
        }
        assert(s@.skip(off as int) =~= suffix@);
    }
    true
}

/// The base name of a path: what follows its last `/`, the whole
/// path when it has none.
pub open spec fn spec_base_name(path: Seq<char>) -> Seq<char> {
    spec_split(path, '/').last()
}

/// Extracts the base name of a path.
pub fn base_name(path: &str) -> (r: String)
    ensures
        r@ == spec_base_name(path@),
{
    let chars = str_chars(path);
    let pieces = split_chars(&chars, '/');
    proof {
        lemma_split_len(path@, '/');
        assert(pieces.deep_view().len() == pieces@.len());
        assert(pieces.deep_view()[pieces@.len() - 1] == pieces@[pieces@.len() - 1]@);
    }
    chars_string(&pieces[pieces.len() - 1])
}

/// A column that parses as an unsigned number.
pub open spec fn spec_numeric_column(s: Seq<char>) -> bool {
    s.len() > 0 && all_digits(s) && digits_value(s) <= usize::MAX
}

} // verus!
