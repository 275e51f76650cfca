//! Text primitives shared by the parsers and the command builders.
//!
//! Text is modelled as `Seq<char>`. The executable functions work on `Vec<char>`
//! (one element per Unicode scalar value) and are specified against small
//! recursive definitions over sequences.

use vstd::prelude::*;
use vstd::std_specs::iter::IteratorSpec;

verus! {

/// Specification of `String::push` from the standard library: the character is
/// appended at the end and nothing else changes.
pub assume_specification[ String::push ](s: &mut String, c: char)
    ensures
        final(s)@ == old(s)@.push(c),
;

/// The Unicode `White_Space` property.
pub open spec fn is_space(c: char) -> bool {
    let n = c as u32;
    (0x09 <= n <= 0x0D) || n == 0x20 || n == 0x85 || n == 0xA0 || n == 0x1680 || (0x2000 <= n
        <= 0x200A) || n == 0x2028 || n == 0x2029 || n == 0x202F || n == 0x205F || n == 0x3000
}

/// Whether `c` is Unicode whitespace.
pub fn is_whitespace(c: char) -> (b: bool)
    ensures
        b == is_space(c),
{
    let n: u32 = c as u32;
    (0x09 <= n && n <= 0x0D) || n == 0x20 || n == 0x85 || n == 0xA0 || n == 0x1680 || (0x2000 <= n
        && n <= 0x200A) || n == 0x2028 || n == 0x2029 || n == 0x202F || n == 0x205F || n == 0x3000
}

/// What separates the pieces of a text.
#[derive(Clone, Copy, Debug)]
pub enum Separator {
    /// One given character.
    Char(char),
    /// Any Unicode whitespace character.
    Whitespace,
}

impl Separator {
    /// Whether `c` is a separator.
    pub open spec fn matches(self, c: char) -> bool {
        match self {
            Separator::Char(d) => c == d,
            Separator::Whitespace => is_space(c),
        }
    }

    /// Whether `c` is a separator.
    pub fn is_match(&self, c: char) -> (b: bool)
        ensures
            b == self.matches(c),
    {
        match self {
            Separator::Char(d) => c == *d,
            Separator::Whitespace => is_whitespace(c),
        }
    }
}

/// Index of the first separator in `s`, or `s.len()` if there is none.
pub open spec fn first_sep(s: Seq<char>, sep: Separator) -> int
    decreases s.len(),
{
    if s.len() == 0 || sep.matches(s[0]) {
        0
    } else {
        1 + first_sep(s.skip(1), sep)
    }
}

/// `s` cut at every separator, empty pieces included. There is always at least
/// one piece, and joining the pieces with the separators between them gives `s`.
pub open spec fn pieces(s: Seq<char>, sep: Separator) -> Seq<Seq<char>>
    decreases s.len(),
{
    let k = first_sep(s, sep);
    if 0 <= k < s.len() {
        seq![s.take(k)] + pieces(s.skip(k + 1), sep)
    } else {
        seq![s]
    }
}

/// The views of a vector of character vectors.
pub open spec fn views(v: Seq<Vec<char>>) -> Seq<Seq<char>> {
    v.map_values(|x: Vec<char>| x@)
}

/// Any index with the defining property of `first_sep` is `first_sep`.
pub proof fn lemma_first_sep_is(s: Seq<char>, sep: Separator, k: int)
    requires
        0 <= k <= s.len(),
        forall|j: int| 0 <= j < k ==> !sep.matches(#[trigger] s[j]),
        k < s.len() ==> sep.matches(s[k]),
    ensures
        first_sep(s, sep) == k,
    decreases s.len(),
{
    if s.len() == 0 {
    } else if sep.matches(s[0]) {
        if k > 0 {
            assert(!sep.matches(s[0]));
        }
    } else {
        let t = s.skip(1);
        assert(k > 0);
        assert forall|j: int| 0 <= j < k - 1 implies !sep.matches(#[trigger] t[j]) by {
            assert(t[j] == s[j + 1]);
        }
        if k < s.len() {
            assert(t[k - 1] == s[k]);
        }
        lemma_first_sep_is(t, sep, k - 1);
    }
}

/// A text without separators is its own single piece.
pub proof fn lemma_pieces_plain(s: Seq<char>, sep: Separator)
    requires
        forall|j: int| 0 <= j < s.len() ==> !sep.matches(#[trigger] s[j]),
    ensures
        pieces(s, sep) == seq![s],
{
    lemma_first_sep_is(s, sep, s.len() as int);
}

/// `pieces` never returns an empty sequence.
pub proof fn lemma_pieces_nonempty(s: Seq<char>, sep: Separator)
    ensures
        pieces(s, sep).len() >= 1,
    decreases s.len(),
{
    let k = first_sep(s, sep);
    if 0 <= k < s.len() {
        lemma_pieces_nonempty(s.skip(k + 1), sep);
    }
}

/// Copies the characters of `s` out into a vector, one element per `char`.
pub fn chars_of(s: &str) -> (v: Vec<char>)
    ensures
        v@ == s@,
{
    let mut v: Vec<char> = Vec::new();
    let mut it = s.chars();
    loop
        invariant
            it.obeys_prophetic_iter_laws(),
            v@ + it.remaining() == s@,
        ensures
            v@ == s@,
        decreases s@.len() - v@.len(),
    {
        match it.next() {
            Some(c) => {
                v.push(c);
            },
            None => {
                break ;
            },
        }
    }
    v
}

/// Builds a `String` from the characters `s[from..to]`.
pub fn text_of(s: &Vec<char>, from: usize, to: usize) -> (out: String)
    requires
        from <= to <= s.len(),
    ensures
        out@ == s@.subrange(from as int, to as int),
{
    let mut out = String::new();
    let mut i: usize = from;
    while i < to
        invariant
            from <= i <= to <= s.len(),
            out@ == s@.subrange(from as int, i as int),
        decreases to - i,
    {
        out.push(s[i]);
        i += 1;
        assert(s@.subrange(from as int, i as int) == s@.subrange(from as int, i - 1).push(
            s@[i - 1],
        ));
    }
    out
}

/// Cuts `s` at every separator, as `str::split` does: empty pieces are kept.
pub fn split(s: &Vec<char>, sep: Separator) -> (out: Vec<Vec<char>>)
    ensures
        views(out@) == pieces(s@, sep),
{
    let mut out: Vec<Vec<char>> = Vec::new();
    let mut cur: Vec<char> = Vec::new();
    let mut i: usize = 0;
    let ghost mut start: int = 0;
    assert(views(out@) =~= Seq::empty());
    assert(s@.skip(0) =~= s@);
    while i < s.len()
        invariant
            0 <= start <= i <= s.len(),
            cur@ == s@.subrange(start, i as int),
            forall|j: int| start <= j < i ==> !sep.matches(#[trigger] s@[j]),
            pieces(s@, sep) == views(out@) + pieces(s@.skip(start), sep),
        decreases s.len() - i,
    {
        let c = s[i];
        if sep.is_match(c) {
            proof {
                let rest = s@.skip(start);
                assert forall|j: int| 0 <= j < i - start implies !sep.matches(
                    #[trigger] rest[j],
                ) by {
                    assert(rest[j] == s@[start + j]);
                }
                assert(rest[i - start] == s@[i as int]);
                lemma_first_sep_is(rest, sep, i - start);
                assert(rest.take(i - start) =~= cur@);
                assert(rest.skip(i - start + 1) =~= s@.skip(i + 1));
                assert(views(out@.push(cur)) =~= views(out@).push(cur@));
                assert(pieces(s@, sep) =~= views(out@).push(cur@) + pieces(s@.skip(i + 1), sep));
                start = i + 1;
            }
            out.push(cur);
            cur = Vec::new();
            assert(cur@ =~= s@.subrange(start, i + 1));
        } else {
            cur.push(c);
            assert(cur@ =~= s@.subrange(start, i + 1));
        }
        i += 1;
    }
    proof {
        let rest = s@.skip(start);
        assert forall|j: int| 0 <= j < rest.len() implies !sep.matches(#[trigger] rest[j]) by {
            assert(rest[j] == s@[start + j]);
        }
        lemma_pieces_plain(rest, sep);
        assert(rest =~= cur@);
        assert(views(out@.push(cur)) =~= views(out@).push(cur@));
    }
    out.push(cur);
    out
}


/// The maximal runs of non-whitespace characters of `s`, in order, as
/// `str::split_whitespace` yields them.
pub open spec fn words(s: Seq<char>) -> Seq<Seq<char>>
    decreases s.len(),
{
    let k = first_sep(s, Separator::Whitespace);
    let head = if k > 0 {
        seq![s.take(k)]
    } else {
        Seq::<Seq<char>>::empty()
    };
    if 0 <= k < s.len() {
        head + words(s.skip(k + 1))
    } else {
        head
    }
}

/// `l` without one trailing carriage return.
pub open spec fn strip_cr(l: Seq<char>) -> Seq<char> {
    if l.len() > 0 && l.last() == '\r' {
        l.drop_last()
    } else {
        l
    }
}

/// The lines of `s`, as `str::lines` yields them: a line ends at `\n` or at the
/// end of the text, a `\r` directly before the `\n` belongs to the line ending,
/// and nothing follows a final line ending.
pub open spec fn lines(s: Seq<char>) -> Seq<Seq<char>>
    decreases s.len(),
{
    let k = first_sep(s, Separator::Char('\n'));
    if 0 <= k < s.len() {
        seq![strip_cr(s.take(k))] + lines(s.skip(k + 1))
    } else if s.len() == 0 {
        Seq::<Seq<char>>::empty()
    } else {
        seq![s]
    }
}

/// `s` without its leading whitespace.
pub open spec fn trim_start(s: Seq<char>) -> Seq<char>
    decreases s.len(),
{
    if s.len() > 0 && is_space(s[0]) {
        trim_start(s.skip(1))
    } else {
        s
    }
}

/// `s` without its trailing whitespace.
pub open spec fn trim_end(s: Seq<char>) -> Seq<char>
    decreases s.len(),
{
    if s.len() > 0 && is_space(s.last()) {
        trim_end(s.drop_last())
    } else {
        s
    }
}

/// `s` without leading and trailing whitespace, as `str::trim` returns it.
pub open spec fn trimmed(s: Seq<char>) -> Seq<char> {
    trim_end(trim_start(s))
}

/// What follows the last `c` in `s`; all of `s` if `c` does not occur.
pub open spec fn after_last(s: Seq<char>, c: char) -> Seq<char>
    decreases s.len(),
{
    if s.len() == 0 || s.last() == c {
        Seq::<char>::empty()
    } else {
        after_last(s.drop_last(), c).push(s.last())
    }
}

/// Whether `pat` occurs in `s` as a contiguous run.
pub open spec fn contains_text(s: Seq<char>, pat: Seq<char>) -> bool {
    exists|i: int| 0 <= i && i + pat.len() <= s.len() && #[trigger] s.subrange(i, i + pat.len()) == pat
}

/// Splits `s` at Unicode whitespace, as `str::split_whitespace` does.
pub fn split_whitespace(s: &Vec<char>) -> (out: Vec<Vec<char>>)
    ensures
        views(out@) == words(s@),
{
    let sep = Separator::Whitespace;
    let mut out: Vec<Vec<char>> = Vec::new();
    let mut cur: Vec<char> = Vec::new();
    let mut i: usize = 0;
    let ghost mut start: int = 0;
    assert(views(out@) =~= Seq::empty());
    assert(s@.skip(0) =~= s@);
    while i < s.len()
        invariant
            sep == Separator::Whitespace,
            0 <= start <= i <= s.len(),
            cur@ == s@.subrange(start, i as int),
            forall|j: int| start <= j < i ==> !sep.matches(#[trigger] s@[j]),
            words(s@) == views(out@) + words(s@.skip(start)),
        decreases s.len() - i,
    {
        let c = s[i];
        if is_whitespace(c) {
            proof {
                let rest = s@.skip(start);
                assert forall|j: int| 0 <= j < i - start implies !sep.matches(
                    #[trigger] rest[j],
                ) by {
                    assert(rest[j] == s@[start + j]);
                }
                assert(rest[i - start] == s@[i as int]);
                lemma_first_sep_is(rest, sep, i - start);
                assert(rest.take(i - start) =~= cur@);
                assert(rest.skip(i - start + 1) =~= s@.skip(i + 1));
                assert(views(out@.push(cur)) =~= views(out@).push(cur@));
                if cur@.len() > 0 {
                    assert(words(s@) =~= views(out@).push(cur@) + words(s@.skip(i + 1)));
                } else {
                    assert(words(s@) =~= views(out@) + words(s@.skip(i + 1)));
                }
                start = i + 1;
            }
            if cur.len() > 0 {
                out.push(cur);
                cur = Vec::new();
            }
            assert(cur@ =~= s@.subrange(start, i + 1));
        } else {
            cur.push(c);
            assert(cur@ =~= s@.subrange(start, i + 1));
        }
        i += 1;
    }
    proof {
        let rest = s@.skip(start);
        assert forall|j: int| 0 <= j < rest.len() implies !sep.matches(#[trigger] rest[j]) by {
            assert(rest[j] == s@[start + j]);
        }
        lemma_first_sep_is(rest, sep, rest.len() as int);
        assert(rest =~= cur@);
        assert(rest.take(rest.len() as int) =~= rest);
        assert(views(out@.push(cur)) =~= views(out@).push(cur@));
    }
    if cur.len() > 0 {
        out.push(cur);
    }
    out
}

/// Splits `s` into lines, as `str::lines` does.
pub fn split_lines(s: &Vec<char>) -> (out: Vec<Vec<char>>)
    ensures
        views(out@) == lines(s@),
{
    let sep = Separator::Char('\n');
    let mut out: Vec<Vec<char>> = Vec::new();
    let mut cur: Vec<char> = Vec::new();
    let mut i: usize = 0;
    let ghost mut start: int = 0;
    assert(views(out@) =~= Seq::empty());
    assert(s@.skip(0) =~= s@);
    while i < s.len()
        invariant
            sep == Separator::Char('\n'),
            0 <= start <= i <= s.len(),
            cur@ == s@.subrange(start, i as int),
            forall|j: int| start <= j < i ==> !sep.matches(#[trigger] s@[j]),
            lines(s@) == views(out@) + lines(s@.skip(start)),
        decreases s.len() - i,
    {
        let c = s[i];
        if c == '\n' {
            let ghost line = cur@;
            if cur.len() > 0 && cur[cur.len() - 1] == '\r' {
                cur.pop();
            }
            proof {
                let rest = s@.skip(start);
                assert forall|j: int| 0 <= j < i - start implies !sep.matches(
                    #[trigger] rest[j],
                ) by {
                    assert(rest[j] == s@[start + j]);
                }
                assert(rest[i - start] == s@[i as int]);
                lemma_first_sep_is(rest, sep, i - start);
                assert(rest.take(i - start) =~= line);
                assert(cur@ =~= strip_cr(line));
                assert(rest.skip(i - start + 1) =~= s@.skip(i + 1));
                assert(views(out@.push(cur)) =~= views(out@).push(cur@));
                assert(lines(s@) =~= views(out@).push(cur@) + lines(s@.skip(i + 1)));
                start = i + 1;
            }
            out.push(cur);
            cur = Vec::new();
            assert(cur@ =~= s@.subrange(start, i + 1));
        } else {
            cur.push(c);
            assert(cur@ =~= s@.subrange(start, i + 1));
        }
        i += 1;
    }
    proof {
        let rest = s@.skip(start);
        assert forall|j: int| 0 <= j < rest.len() implies !sep.matches(#[trigger] rest[j]) by {
            assert(rest[j] == s@[start + j]);
        }
        lemma_first_sep_is(rest, sep, rest.len() as int);
        assert(rest =~= cur@);
        assert(views(out@.push(cur)) =~= views(out@).push(cur@));
    }
    if cur.len() > 0 {
        out.push(cur);
    }
    out
}

/// Copies `s[from..to]`.
pub fn copy_range(s: &Vec<char>, from: usize, to: usize) -> (out: Vec<char>)
    requires
        from <= to <= s.len(),
    ensures
        out@ == s@.subrange(from as int, to as int),
{
    let mut out: Vec<char> = Vec::new();
    let mut i: usize = from;
    while i < to
        invariant
            from <= i <= to <= s.len(),
            out@ == s@.subrange(from as int, i as int),
        decreases to - i,
    {
        out.push(s[i]);
        i += 1;
        assert(s@.subrange(from as int, i as int) == s@.subrange(from as int, i - 1).push(
            s@[i - 1],
        ));
    }
    out
}

/// Removes leading and trailing whitespace, as `str::trim` does.
pub fn trim(s: &Vec<char>) -> (out: Vec<char>)
    ensures
        out@ == trimmed(s@),
{
    let mut a: usize = 0;
    assert(s@.skip(0) =~= s@);
    while a < s.len() && is_whitespace(s[a])
        invariant
            a <= s.len(),
            trim_start(s@) == trim_start(s@.skip(a as int)),
        decreases s.len() - a,
    {
        assert(s@.skip(a as int).skip(1) =~= s@.skip(a + 1));
        a += 1;
    }
    let mut b: usize = s.len();
    assert(s@.skip(a as int) =~= s@.subrange(a as int, b as int));
    while b > a && is_whitespace(s[b - 1])
        invariant
            a <= b <= s.len(),
            trim_start(s@) == s@.skip(a as int),
            trimmed(s@) == trim_end(s@.subrange(a as int, b as int)),
        decreases b,
    {
        assert(s@.subrange(a as int, b as int).drop_last() =~= s@.subrange(a as int, b - 1));
        b -= 1;
    }
    copy_range(s, a, b)
}

/// The part of `s` after its last `c`, or all of `s` if it holds none.
pub fn suffix_after_last(s: &Vec<char>, c: char) -> (out: Vec<char>)
    ensures
        out@ == after_last(s@, c),
{
    let mut k: usize = s.len();
    assert(s@.take(k as int) =~= s@);
    assert(s@.subrange(k as int, s.len() as int) =~= Seq::<char>::empty());
    while k > 0 && s[k - 1] != c
        invariant
            k <= s.len(),
            after_last(s@, c) == after_last(s@.take(k as int), c) + s@.subrange(
                k as int,
                s.len() as int,
            ),
        decreases k,
    {
        proof {
            let t = s@.take(k as int);
            assert(t.last() == s@[k - 1]);
            assert(t.drop_last() =~= s@.take(k - 1));
            assert(after_last(t, c) + s@.subrange(k as int, s.len() as int) =~= after_last(
                s@.take(k - 1),
                c,
            ) + s@.subrange(k - 1, s.len() as int));
        }
        k -= 1;
    }
    proof {
        let t = s@.take(k as int);
        if k > 0 {
            assert(t.last() == s@[k - 1]);
        }
        assert(after_last(t, c) =~= Seq::<char>::empty());
    }
    copy_range(s, k, s.len())
}

/// Whether `a` and `b` hold the same characters.
pub fn text_eq(a: &Vec<char>, b: &Vec<char>) -> (same: bool)
    ensures
        same == (a@ == b@),
{
    if a.len() != b.len() {
        return false;
    }
    let mut i: usize = 0;
    while i < a.len()
        invariant
            a.len() == b.len(),
            i <= a.len(),
            a@.take(i as int) == b@.take(i as int),
        decreases a.len() - i,
    {
        if a[i] != b[i] {
            return false;
        }
        assert(a@.take(i + 1) =~= a@.take(i as int).push(a@[i as int]));
        assert(b@.take(i + 1) =~= b@.take(i as int).push(b@[i as int]));
        i += 1;
    }
    assert(a@ =~= a@.take(a.len() as int));
    assert(b@ =~= b@.take(b.len() as int));
    true
}

/// Whether `pat` occurs in `s`.
pub fn contains(s: &Vec<char>, pat: &Vec<char>) -> (found: bool)
    ensures
        found == contains_text(s@, pat@),
{
    if pat.len() > s.len() {
        return false;
    }
    let last: usize = s.len() - pat.len();
    let mut i: usize = 0;
    while i <= last
        invariant
            last == s.len() - pat.len(),
            i <= last + 1,
            forall|k: int| 0 <= k < i ==> #[trigger] s@.subrange(k, k + pat.len()) != pat@,
        decreases last + 1 - i,
    {
        let mut j: usize = 0;
        while j < pat.len() && s[i + j] == pat[j]
            invariant
                i + pat.len() <= s.len(),
                j <= pat.len(),
                s@.subrange(i as int, i + j) == pat@.take(j as int),
            decreases pat.len() - j,
        {
            assert(s@.subrange(i as int, i + j + 1) =~= s@.subrange(i as int, i + j).push(
                s@[i + j],
            ));
            assert(pat@.take(j + 1) =~= pat@.take(j as int).push(pat@[j as int]));
            j += 1;
        }
        if j == pat.len() {
            assert(pat@.take(j as int) =~= pat@);
            return true;
        }
        assert(s@.subrange(i as int, i + pat.len())[j as int] != pat@[j as int]);
        i += 1;
    }
    false
}


/// The views of a vector of strings.
pub open spec fn strings(v: Seq<String>) -> Seq<Seq<char>> {
    v.map_values(|s: String| s@)
}

/// `a` followed by `b`.
pub fn join_text(a: &str, b: &str) -> (out: String)
    ensures
        out@ == a@ + b@,
{
    let mut out = a.to_owned();
    out.append(b);
    out
}

/// Appends `arg` to an argument list.
pub fn push_arg(args: &mut Vec<String>, arg: String)
    ensures
        strings(final(args)@) == strings(old(args)@).push(arg@),
{
    args.push(arg);
    assert(strings(args@) =~= strings(old(args)@).push(arg@));
}

/// Appends the text `arg` to an argument list.
pub fn push_text(args: &mut Vec<String>, arg: &str)
    ensures
        strings(final(args)@) == strings(old(args)@).push(arg@),
{
    push_arg(args, arg.to_owned());
}

/// The whole of `s` as a `String`.
pub fn string_of(s: &Vec<char>) -> (out: String)
    ensures
        out@ == s@,
{
    let out = text_of(s, 0, s.len());
    assert(s@.subrange(0, s.len() as int) =~= s@);
    out
}

/// `text` without leading and trailing whitespace.
pub fn trimmed_chars(text: &str) -> (out: Vec<char>)
    ensures
        out@ == trimmed(text@),
{
    let all = chars_of(text);
    trim(&all)
}


/// Appends copies of the arguments `more` to an argument list.
pub fn extend_args(args: &mut Vec<String>, more: &Vec<String>)
    ensures
        strings(final(args)@) == strings(old(args)@) + strings(more@),
{
    let ghost head = strings(args@);
    let mut i: usize = 0;
    assert(strings(args@) =~= head + strings(more@).take(0));
    while i < more.len()
        invariant
            i <= more.len(),
            strings(args@) == head + strings(more@).take(i as int),
        decreases more.len() - i,
    {
        push_arg(args, more[i].clone());
        assert(strings(more@).take(i + 1) =~= strings(more@).take(i as int).push(more@[i as int]@));
        i += 1;
    }
    assert(strings(more@).take(more.len() as int) =~= strings(more@));
}


/// Whether every character of `s` is whitespace.
pub open spec fn all_space(s: Seq<char>) -> bool {
    forall|i: int| 0 <= i < s.len() ==> is_space(#[trigger] s[i])
}

/// Whether `s` holds no whitespace.
pub open spec fn no_space(s: Seq<char>) -> bool {
    forall|i: int| 0 <= i < s.len() ==> !is_space(#[trigger] s[i])
}

/// The fields `fields` written in a row with the runs of whitespace `pads`
/// around and between them: `pads[0]`, then each field followed by the next
/// pad.
pub open spec fn padded_row(fields: Seq<Seq<char>>, pads: Seq<Seq<char>>) -> Seq<char>
    recommends
        pads.len() == fields.len() + 1,
    decreases fields.len(),
{
    if fields.len() == 0 {
        pads[0]
    } else {
        pads[0] + fields[0] + padded_row(fields.skip(1), pads.skip(1))
    }
}

/// Whether `fields` and `pads` make a row: there is a pad before, between and
/// after the fields; the pads are whitespace, and those between two fields are
/// not empty; the fields are not empty and hold no whitespace.
pub open spec fn is_row(fields: Seq<Seq<char>>, pads: Seq<Seq<char>>) -> bool {
    &&& pads.len() == fields.len() + 1
    &&& forall|i: int| 0 <= i < pads.len() ==> all_space(#[trigger] pads[i])
    &&& forall|i: int| 0 < i < fields.len() ==> (#[trigger] pads[i]).len() > 0
    &&& forall|i: int|
        0 <= i < fields.len() ==> (#[trigger] fields[i]).len() > 0 && no_space(fields[i])
}

/// Leading whitespace does not change the words of a text.
pub proof fn lemma_words_skip_space(pad: Seq<char>, s: Seq<char>)
    requires
        all_space(pad),
    ensures
        words(pad + s) == words(s),
    decreases pad.len(),
{
    if pad.len() == 0 {
        assert(pad + s =~= s);
    } else {
        let whole = pad + s;
        assert(whole[0] == pad[0]);
        assert(whole.skip(1) =~= pad.skip(1) + s);
        assert forall|i: int| 0 <= i < pad.skip(1).len() implies is_space(
            #[trigger] pad.skip(1)[i],
        ) by {
            assert(pad.skip(1)[i] == pad[i + 1]);
        }
        lemma_words_skip_space(pad.skip(1), s);
    }
}

/// A field at the start of a text is its first word, if whitespace or the end
/// of the text follows it.
pub proof fn lemma_words_take_field(field: Seq<char>, rest: Seq<char>)
    requires
        field.len() > 0,
        no_space(field),
        rest.len() > 0 ==> is_space(rest[0]),
    ensures
        words(field + rest) == seq![field] + words(rest),
{
    let whole = field + rest;
    let sep = Separator::Whitespace;
    assert forall|j: int| 0 <= j < field.len() implies !sep.matches(#[trigger] whole[j]) by {
        assert(whole[j] == field[j]);
    }
    if rest.len() > 0 {
        assert(whole[field.len() as int] == rest[0]);
    }
    lemma_first_sep_is(whole, sep, field.len() as int);
    assert(whole.take(field.len() as int) =~= field);
    if rest.len() > 0 {
        assert(whole.skip(field.len() as int + 1) =~= rest.skip(1));
        assert(first_sep(rest, sep) == 0);
        assert(words(rest) =~= words(rest.skip(1)));
    } else {
        assert(first_sep(rest, sep) == 0);
        assert(words(rest) =~= Seq::<Seq<char>>::empty());
    }
}

/// The words of a row are its fields, whatever the whitespace around and
/// between them.
pub proof fn lemma_words_of_row(fields: Seq<Seq<char>>, pads: Seq<Seq<char>>)
    requires
        is_row(fields, pads),
    ensures
        words(padded_row(fields, pads)) == fields,
    decreases fields.len(),
{
    let empty = Seq::<char>::empty();
    if fields.len() == 0 {
        lemma_words_skip_space(pads[0], empty);
        assert(pads[0] + empty =~= pads[0]);
        assert(first_sep(empty, Separator::Whitespace) == 0);
        assert(words(empty) =~= fields);
    } else {
        let later = fields.skip(1);
        let later_pads = pads.skip(1);
        let tail = padded_row(later, later_pads);
        assert(is_row(later, later_pads)) by {
            assert forall|i: int| 0 <= i < later_pads.len() implies all_space(
                #[trigger] later_pads[i],
            ) by {
                assert(later_pads[i] == pads[i + 1]);
            }
            assert forall|i: int| 0 < i < later.len() implies (#[trigger] later_pads[i]).len()
                > 0 by {
                assert(later_pads[i] == pads[i + 1]);
            }
            assert forall|i: int| 0 <= i < later.len() implies (#[trigger] later[i]).len() > 0
                && no_space(later[i]) by {
                assert(later[i] == fields[i + 1]);
            }
        }
        lemma_words_of_row(later, later_pads);
        assert(tail.len() > 0 ==> is_space(tail[0])) by {
            assert(later_pads[0] == pads[1]);
            if later.len() == 0 {
                assert(tail == pads[1]);
            } else {
                assert(pads[1].len() > 0);
                assert(tail[0] == pads[1][0]);
            }
        }
        lemma_words_take_field(fields[0], tail);
        lemma_words_skip_space(pads[0], fields[0] + tail);
        assert(pads[0] + fields[0] + tail =~= pads[0] + (fields[0] + tail));
        assert(seq![fields[0]] + later =~= fields);
    }
}

} // verus!
