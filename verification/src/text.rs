//! Characters and strings: the operations on text that the rest of the crate
//! is built from, each stated over the sequence of characters a string holds.

use vstd::prelude::*;

verus! {

/// `String::push` appends one character.
pub assume_specification[ String::push ](s: &mut String, c: char)
    ensures
        final(s)@ == old(s)@.push(c),
;

/// Unicode's `White_Space` property.
pub open spec fn white_space(c: char) -> bool {
    ||| '\u{9}' <= c <= '\u{d}'
    ||| c == ' '
    ||| c == '\u{85}'
    ||| c == '\u{a0}'
    ||| c == '\u{1680}'
    ||| '\u{2000}' <= c <= '\u{200a}'
    ||| c == '\u{2028}'
    ||| c == '\u{2029}'
    ||| c == '\u{202f}'
    ||| c == '\u{205f}'
    ||| c == '\u{3000}'
}

/// Whether `c` is white space.
pub fn is_white_space(c: char) -> (r: bool)
    ensures
        r == white_space(c),
{
    ('\u{9}' <= c && c <= '\u{d}') || c == ' ' || c == '\u{85}' || c == '\u{a0}' || c == '\u{1680}'
        || ('\u{2000}' <= c && c <= '\u{200a}') || c == '\u{2028}' || c == '\u{2029}' || c
        == '\u{202f}' || c == '\u{205f}' || c == '\u{3000}'
}

/// Whether two strings hold the same characters.
pub fn str_eq(a: &str, b: &str) -> (r: bool)
    ensures
        r == (a@ == b@),
{
    a.to_owned() == b.to_owned()
}

/// The characters of a string.
pub fn chars_of(s: &str) -> (r: Vec<char>)
    ensures
        r@ == s@,
{
    let mut out: Vec<char> = Vec::new();
    for c in it: s.chars()
        invariant
            out@ == it.seq().take(it.index()),
            it.seq() == s@,
    {
        out.push(c);
        assert(it.seq().take(it.index() + 1) =~= it.seq().take(it.index()).push(c));
    }
    assert(s@.take(s@.len() as int) =~= s@);
    out
}

/// The string made of the characters `v[from..to]`.
pub fn string_of(v: &Vec<char>, from: usize, to: usize) -> (r: String)
    requires
        from <= to <= v@.len(),
    ensures
        r@ == v@.subrange(from as int, to as int),
{
    let mut out = String::new();
    let mut i: usize = from;
    while i < to
        invariant
            from <= i <= to <= v@.len(),
            out@ == v@.subrange(from as int, i as int),
        decreases to - i,
    {
        out.push(v[i]);
        assert(v@.subrange(from as int, i + 1) =~= v@.subrange(from as int, i as int).push(
            v@[i as int],
        ));
        i = i + 1;
    }
    out
}

/// `s` without its leading white space.
pub open spec fn trim_left(s: Seq<char>) -> Seq<char>
    decreases s.len(),
{
    if s.len() > 0 && white_space(s.first()) {
        trim_left(s.drop_first())
    } else {
        s
    }
}

/// `s` without its trailing white space.
pub open spec fn trim_right(s: Seq<char>) -> Seq<char>
    decreases s.len(),
{
    if s.len() > 0 && white_space(s.last()) {
        trim_right(s.drop_last())
    } else {
        s
    }
}

/// `s` without its leading and trailing white space.
pub open spec fn trimmed(s: Seq<char>) -> Seq<char> {
    trim_right(trim_left(s))
}

proof fn lemma_trim_right_keeps(s: Seq<char>)
    ensures
        trim_right(s).len() <= s.len(),
        trim_right(s) == s.take(trim_right(s).len() as int),
        trim_right(s).len() > 0 ==> !white_space(trim_right(s).last()),
    decreases s.len(),
{
    if s.len() > 0 && white_space(s.last()) {
        lemma_trim_right_keeps(s.drop_last());
        let n = trim_right(s).len() as int;
        assert(s.drop_last().take(n) =~= s.take(n));
    } else {
        assert(s.take(s.len() as int) =~= s);
    }
}

proof fn lemma_trim_left_keeps(s: Seq<char>)
    ensures
        trim_left(s).len() > 0 ==> !white_space(trim_left(s).first()),
    decreases s.len(),
{
    if s.len() > 0 && white_space(s.first()) {
        lemma_trim_left_keeps(s.drop_first());
    }
}

/// Trimming what was trimmed changes nothing.
pub proof fn trimmed_twice(s: Seq<char>)
    ensures
        trimmed(trimmed(s)) == trimmed(s),
{
    let l = trim_left(s);
    let t = trim_right(l);
    lemma_trim_left_keeps(s);
    lemma_trim_right_keeps(l);
    if t.len() > 0 {
        assert(t.first() == l.first());
    }
}

/// The part of `s` between its outermost characters that are not white space.
pub fn trim(s: &str) -> (r: &str)
    ensures
        r@ == trimmed(s@),
{
    let v = chars_of(s);
    let mut lo: usize = 0;
    assert(v@.subrange(0, v@.len() as int) =~= v@);
    while lo < v.len() && is_white_space(v[lo])
        invariant
            lo <= v@.len(),
            trim_left(v@) == trim_left(v@.subrange(lo as int, v@.len() as int)),
        decreases v@.len() - lo,
    {
        let ghost rest = v@.subrange(lo as int, v@.len() as int);
        assert(rest.drop_first() =~= v@.subrange(lo + 1, v@.len() as int));
        lo = lo + 1;
    }
    assert(trim_left(v@) == v@.subrange(lo as int, v@.len() as int));
    let mut hi: usize = v.len();
    while hi > lo && is_white_space(v[hi - 1])
        invariant
            lo <= hi <= v@.len(),
            trimmed(v@) == trim_right(v@.subrange(lo as int, hi as int)),
        decreases hi,
    {
        let ghost rest = v@.subrange(lo as int, hi as int);
        assert(rest.drop_last() =~= v@.subrange(lo as int, hi - 1));
        hi = hi - 1;
    }
    s.substring_char(lo, hi)
}

/// Whether `p` stands in `s` at index `i`.
pub open spec fn occurs_at(s: Seq<char>, p: Seq<char>, i: int) -> bool {
    0 <= i && i + p.len() <= s.len() && s.subrange(i, i + p.len()) == p
}

/// Whether `p` stands somewhere in `s`.
pub open spec fn has_substring(s: Seq<char>, p: Seq<char>) -> bool {
    exists|i: int| occurs_at(s, p, i)
}

/// Whether `p` stands in `s` at index `i`.
pub fn matches_at(s: &Vec<char>, p: &Vec<char>, i: usize) -> (r: bool)
    ensures
        r == occurs_at(s@, p@, i as int),
{
    if i > s.len() || p.len() > s.len() - i {
        return false;
    }
    let mut k: usize = 0;
    while k < p.len()
        invariant
            i <= s@.len(),
            i + p.len() <= s.len(),
            k <= p@.len(),
            forall|j: int| 0 <= j < k ==> s@[i + j] == p@[j],
        decreases p@.len() - k,
    {
        if s[i + k] != p[k] {
            assert(s@.subrange(i as int, i + p@.len())[k as int] != p@[k as int]);
            return false;
        }
        k = k + 1;
    }
    assert(s@.subrange(i as int, i + p@.len()) =~= p@);
    true
}

/// The least index at or after `from` at which `p` stands in `s`.
pub fn find_from(s: &Vec<char>, p: &Vec<char>, from: usize) -> (r: Option<usize>)
    ensures
        match r {
            Some(i) => {
                &&& from <= i
                &&& occurs_at(s@, p@, i as int)
                &&& forall|j: int| from <= j < i ==> !occurs_at(s@, p@, j)
            },
            None => forall|j: int| from <= j ==> !occurs_at(s@, p@, j),
        },
{
    let mut i: usize = from;
    while i <= s.len()
        invariant
            from <= i,
            i <= s@.len() + 1 || i == from,
            forall|j: int| from <= j < i ==> !occurs_at(s@, p@, j),
        decreases s@.len() + 1 - i,
    {
        if matches_at(s, p, i) {
            return Some(i);
        }
        if i == s.len() {
            return None;
        }
        i = i + 1;
    }
    None
}

/// Whether `p` stands somewhere in `s`.
pub fn str_contains(s: &str, p: &str) -> (r: bool)
    ensures
        r == has_substring(s@, p@),
{
    let sv = chars_of(s);
    let pv = chars_of(p);
    match find_from(&sv, &pv, 0) {
        Some(i) => {
            assert(occurs_at(s@, p@, i as int));
            true
        },
        None => {
            assert forall|j: int| !occurs_at(s@, p@, j) by {}
            false
        },
    }
}

/// What follows `p` at the start of `s`; `None` where `s` does not start with `p`.
pub fn strip_prefix<'a>(s: &'a str, p: &str) -> (r: Option<&'a str>)
    ensures
        match r {
            Some(rest) => s@ == p@ + rest@,
            None => !occurs_at(s@, p@, 0),
        },
        r is Some <==> occurs_at(s@, p@, 0),
{
    let sv = chars_of(s);
    let pv = chars_of(p);
    if matches_at(&sv, &pv, 0) {
        let rest = s.substring_char(pv.len(), sv.len());
        assert(s@ =~= s@.subrange(0, p@.len() as int) + rest@);
        Some(rest)
    } else {
        None
    }
}

/// `s` with `to` in front of each character and at its end.
pub open spec fn interleaved(s: Seq<char>, to: Seq<char>) -> Seq<char>
    decreases s.len(),
{
    if s.len() == 0 {
        to
    } else {
        interleaved(s.drop_last(), to).push(s.last()) + to
    }
}

/// `s` with `to` in the place of each occurrence of `from`, taken from the left
/// and without overlap. An empty `from` occurs at every boundary.
pub open spec fn replaced(s: Seq<char>, from: Seq<char>, to: Seq<char>) -> Seq<char>
    decreases s.len(),
{
    if from.len() == 0 {
        interleaved(s, to)
    } else if s.len() == 0 {
        s
    } else if occurs_at(s, from, 0) {
        to + replaced(s.skip(from.len() as int), from, to)
    } else {
        seq![s.first()] + replaced(s.drop_first(), from, to)
    }
}

/// Replaces every occurrence of `from` in `s` by `to`, as `str::replace` does.
pub fn replace_all(s: &str, from: &str, to: &str) -> (r: String)
    ensures
        r@ == replaced(s@, from@, to@),
{
    let sv = chars_of(s);
    let fv = chars_of(from);
    let mut out = String::new();
    if fv.len() == 0 {
        out.append(to);
        let mut i: usize = 0;
        assert(sv@.take(0) =~= Seq::<char>::empty());
        assert(out@ =~= to@);
        while i < sv.len()
            invariant
                i <= sv@.len(),
                out@ == interleaved(sv@.take(i as int), to@),
            decreases sv@.len() - i,
        {
            out.push(sv[i]);
            out.append(to);
            assert(sv@.take(i + 1).drop_last() =~= sv@.take(i as int));
            i = i + 1;
        }
        assert(sv@.take(sv@.len() as int) =~= sv@);
        return out;
    }
    let mut i: usize = 0;
    assert(sv@.skip(0) =~= sv@);
    assert(out@ + replaced(sv@, fv@, to@) =~= replaced(sv@, fv@, to@));
    while i < sv.len()
        invariant
            i <= sv@.len(),
            fv@ == from@,
            sv@ == s@,
            fv@.len() > 0,
            out@ + replaced(sv@.skip(i as int), fv@, to@) == replaced(sv@, fv@, to@),
        decreases sv@.len() - i,
    {
        let ghost rest = sv@.skip(i as int);
        let ghost before = out@;
        if matches_at(&sv, &fv, i) {
            assert(sv@.subrange(i as int, i + fv@.len()) =~= rest.subrange(0, fv@.len() as int));
            assert(occurs_at(rest, fv@, 0));
            out.append(to);
            assert(rest.skip(fv@.len() as int) =~= sv@.skip(i + fv@.len()));
            assert(out@ + replaced(rest.skip(fv@.len() as int), fv@, to@) =~= before + (to@
                + replaced(rest.skip(fv@.len() as int), fv@, to@)));
            i = i + fv.len();
        } else {
            assert(!occurs_at(rest, fv@, 0)) by {
                if occurs_at(rest, fv@, 0) {
                    assert(sv@.subrange(i as int, i + fv@.len()) =~= rest.subrange(
                        0,
                        fv@.len() as int,
                    ));
                }
            }
            out.push(sv[i]);
            assert(rest.drop_first() =~= sv@.skip(i + 1));
            assert(out@ + replaced(rest.drop_first(), fv@, to@) =~= before + (seq![rest.first()]
                + replaced(rest.drop_first(), fv@, to@)));
            i = i + 1;
        }
    }
    assert(sv@.skip(i as int) =~= Seq::<char>::empty());
    assert(out@ + Seq::<char>::empty() =~= out@);
    out
}

/// The parts with `sep` between each two of them.
pub open spec fn joined(parts: Seq<Seq<char>>, sep: Seq<char>) -> Seq<char>
    decreases parts.len(),
{
    if parts.len() == 0 {
        Seq::empty()
    } else if parts.len() == 1 {
        parts[0]
    } else {
        joined(parts.drop_last(), sep) + sep + parts.last()
    }
}

/// The strings of a list, each as the characters it holds.
pub open spec fn texts(v: Seq<String>) -> Seq<Seq<char>> {
    v.map_values(|s: String| s@)
}

/// What an optional string holds.
pub open spec fn opt_text(o: Option<String>) -> Option<Seq<char>> {
    match o {
        Some(s) => Some(s@),
        None => None,
    }
}

/// Joins `parts` with `sep` between each two of them.
pub fn join(parts: &Vec<String>, sep: &str) -> (r: String)
    ensures
        r@ == joined(texts(parts@), sep@),
{
    let mut out = String::new();
    let mut i: usize = 0;
    let ghost all = texts(parts@);
    assert(all.take(0) =~= Seq::<Seq<char>>::empty());
    while i < parts.len()
        invariant
            i <= parts@.len(),
            all == texts(parts@),
            out@ == joined(all.take(i as int), sep@),
        decreases parts@.len() - i,
    {
        assert(all.take(i + 1).drop_last() =~= all.take(i as int));
        if i > 0 {
            out.append(sep);
        }
        out.append(parts[i].as_str());
        if i == 0 {
            assert(out@ =~= parts@[0]@);
        }
        i = i + 1;
    }
    assert(all.take(parts@.len() as int) =~= all);
    out
}

/// The pieces of `s` between occurrences of `sep`; one more than `sep` occurs.
pub open spec fn split_on(s: Seq<char>, sep: char) -> Seq<Seq<char>>
    decreases s.len(),
{
    if s.len() == 0 {
        seq![Seq::empty()]
    } else {
        let rest = split_on(s.drop_last(), sep);
        if s.last() == sep {
            rest.push(Seq::empty())
        } else {
            rest.drop_last().push(rest.last().push(s.last()))
        }
    }
}

/// Splits `s` at each occurrence of `sep`.
pub fn split_char(s: &str, sep: char) -> (r: Vec<String>)
    ensures
        texts(r@) == split_on(s@, sep),
{
    let v = chars_of(s);
    let mut done: Vec<String> = Vec::new();
    let mut cur = String::new();
    let mut i: usize = 0;
    assert(v@.take(0) =~= Seq::<char>::empty());
    assert(texts(done@).push(cur@) =~= seq![Seq::<char>::empty()]);
    while i < v.len()
        invariant
            i <= v@.len(),
            texts(done@).push(cur@) == split_on(v@.take(i as int), sep),
        decreases v@.len() - i,
    {
        assert(v@.take(i + 1).drop_last() =~= v@.take(i as int));
        let ghost before = texts(done@).push(cur@);
        if v[i] == sep {
            done.push(cur);
            assert(texts(done@) =~= before);
            cur = String::new();
        } else {
            assert(before.drop_last() =~= texts(done@));
            cur.push(v[i]);
        }
        i = i + 1;
    }
    assert(v@.take(v@.len() as int) =~= v@);
    let ghost before = texts(done@).push(cur@);
    done.push(cur);
    assert(texts(done@) =~= before);
    done
}

/// The first `n` characters of `s`, or all of them where there are fewer.
pub open spec fn first_chars(s: Seq<char>, n: nat) -> Seq<char> {
    if s.len() <= n {
        s
    } else {
        s.take(n as int)
    }
}

/// Takes the first `n` characters of `s`.
pub fn take_chars(s: &str, n: usize) -> (r: String)
    ensures
        r@ == first_chars(s@, n as nat),
{
    let v = chars_of(s);
    assert(v@.subrange(0, v@.len() as int) =~= v@);
    if v.len() <= n {
        string_of(&v, 0, v.len())
    } else {
        assert(v@.subrange(0, n as int) =~= v@.take(n as int));
        string_of(&v, 0, n)
    }
}

/// Whether the list holds a string with these characters.
pub open spec fn holds(v: Seq<String>, s: Seq<char>) -> bool {
    exists|i: int| 0 <= i < v.len() && #[trigger] v[i]@ == s
}

/// Whether the list holds `s`.
pub fn contains_string(v: &Vec<String>, s: &str) -> (r: bool)
    ensures
        r == holds(v@, s@),
{
    let mut i: usize = 0;
    while i < v.len()
        invariant
            i <= v@.len(),
            forall|j: int| 0 <= j < i ==> #[trigger] v@[j]@ != s@,
        decreases v@.len() - i,
    {
        if str_eq(v[i].as_str(), s) {
            return true;
        }
        i = i + 1;
    }
    false
}

/// Copies a list of strings.
pub fn clone_strings(v: &Vec<String>) -> (r: Vec<String>)
    ensures
        r@ == v@,
{
    let mut out: Vec<String> = Vec::new();
    let mut i: usize = 0;
    while i < v.len()
        invariant
            i <= v@.len(),
            out@ == v@.take(i as int),
        decreases v@.len() - i,
    {
        out.push(v[i].clone());
        assert(v@.take(i + 1) =~= v@.take(i as int).push(v@[i as int]));
        i = i + 1;
    }
    assert(v@.take(v@.len() as int) =~= v@);
    out
}

/// Copies an optional string.
pub fn clone_opt(o: &Option<String>) -> (r: Option<String>)
    ensures
        r == *o,
{
    match o {
        Some(s) => Some(s.clone()),
        None => None,
    }
}

/// Whether `a` comes before `b` in the order of their characters.
pub open spec fn lex_less(a: Seq<char>, b: Seq<char>) -> bool
    decreases a.len(),
{
    if b.len() == 0 {
        false
    } else if a.len() == 0 {
        true
    } else if a.first() != b.first() {
        a.first() < b.first()
    } else {
        lex_less(a.drop_first(), b.drop_first())
    }
}

/// Whether `a` comes before `b`.
pub fn str_less(a: &str, b: &str) -> (r: bool)
    ensures
        r == lex_less(a@, b@),
{
    let av = chars_of(a);
    let bv = chars_of(b);
    let mut i: usize = 0;
    assert(av@.skip(0) =~= av@);
    assert(bv@.skip(0) =~= bv@);
    while i < av.len() && i < bv.len()
        invariant
            i <= av@.len(),
            i <= bv@.len(),
            av@ == a@,
            bv@ == b@,
            lex_less(av@, bv@) == lex_less(av@.skip(i as int), bv@.skip(i as int)),
        decreases av@.len() - i,
    {
        assert(av@.skip(i as int).first() == av@[i as int]);
        assert(bv@.skip(i as int).first() == bv@[i as int]);
        assert(av@.skip(i as int).drop_first() =~= av@.skip(i + 1));
        assert(bv@.skip(i as int).drop_first() =~= bv@.skip(i + 1));
        if av[i] != bv[i] {
            return av[i] < bv[i];
        }
        i = i + 1;
    }
    i < bv.len()
}

/// No text comes before itself, and of two different texts one comes before the
/// other.
pub proof fn lex_is_total(a: Seq<char>, b: Seq<char>)
    ensures
        !(lex_less(a, b) && lex_less(b, a)),
        a != b ==> lex_less(a, b) || lex_less(b, a),
        a == b ==> !lex_less(a, b),
    decreases a.len(),
{
    if a.len() > 0 && b.len() > 0 && a.first() == b.first() {
        lex_is_total(a.drop_first(), b.drop_first());
        if a.drop_first() == b.drop_first() {
            assert(a =~= seq![a.first()] + a.drop_first());
            assert(b =~= seq![b.first()] + b.drop_first());
        }
    } else if a.len() == 0 && b.len() == 0 {
        assert(a =~= b);
    }
}

/// What comes before something that comes before a third comes before the third.
pub proof fn lex_is_transitive(a: Seq<char>, b: Seq<char>, c: Seq<char>)
    requires
        lex_less(a, b),
        lex_less(b, c),
    ensures
        lex_less(a, c),
    decreases a.len(),
{
    if a.len() > 0 && a.first() == b.first() && b.first() == c.first() {
        lex_is_transitive(a.drop_first(), b.drop_first(), c.drop_first());
    }
}

/// The number of leading texts of a sorted list that do not come after `s`.
pub open spec fn place_of(sorted: Seq<Seq<char>>, s: Seq<char>) -> int
    decreases sorted.len(),
{
    if sorted.len() == 0 {
        0
    } else if lex_less(s, sorted.last()) {
        place_of(sorted.drop_last(), s)
    } else {
        sorted.len() as int
    }
}

/// The texts in their order.
pub open spec fn in_order(v: Seq<Seq<char>>) -> Seq<Seq<char>>
    decreases v.len(),
{
    if v.len() == 0 {
        v
    } else {
        let rest = in_order(v.drop_last());
        rest.insert(place_of(rest, v.last()), v.last())
    }
}

/// What `place_of` is.
pub proof fn lemma_place_of(sorted: Seq<Seq<char>>, s: Seq<char>)
    ensures
        0 <= place_of(sorted, s) <= sorted.len(),
        forall|j: int| place_of(sorted, s) <= j < sorted.len() ==> lex_less(s, #[trigger] sorted[j]),
        place_of(sorted, s) > 0 ==> !lex_less(s, sorted[place_of(sorted, s) - 1]),
    decreases sorted.len(),
{
    if sorted.len() > 0 && lex_less(s, sorted.last()) {
        let r = sorted.drop_last();
        lemma_place_of(r, s);
        assert forall|j: int| place_of(sorted, s) <= j < sorted.len() implies lex_less(
            s,
            #[trigger] sorted[j],
        ) by {
            if j < r.len() {
                assert(r[j] == sorted[j]);
            }
        }
    }
}

/// Whether no text comes before one that stands in front of it.
pub open spec fn is_sorted(v: Seq<Seq<char>>) -> bool {
    forall|i: int, j: int| 0 <= i < j < v.len() ==> !lex_less(#[trigger] v[j], #[trigger] v[i])
}

/// The texts in their order are sorted, and they are the same texts.
pub proof fn in_order_is_sorted(v: Seq<Seq<char>>)
    ensures
        is_sorted(in_order(v)),
        in_order(v).len() == v.len(),
        in_order(v).to_multiset() == v.to_multiset(),
    decreases v.len(),
{
    if v.len() > 0 {
        let x = v.last();
        let rest = in_order(v.drop_last());
        in_order_is_sorted(v.drop_last());
        lemma_place_of(rest, x);
        let p = place_of(rest, x);
        let w = in_order(v);
        assert forall|i: int, j: int| 0 <= i < j < w.len() implies !lex_less(
            #[trigger] w[j],
            #[trigger] w[i],
        ) by {
            let oi = if i < p {
                i
            } else {
                i - 1
            };
            let oj = if j < p {
                j
            } else {
                j - 1
            };
            if i == p {
                assert(w[j] == rest[oj]);
                lex_is_total(x, rest[oj]);
            } else if j == p {
                assert(w[i] == rest[i]);
                if lex_less(x, rest[i]) {
                    if i < p - 1 {
                        assert(!lex_less(rest[p - 1], rest[i]));
                        lex_is_total(rest[p - 1], rest[i]);
                        if rest[p - 1] != rest[i] {
                            lex_is_transitive(x, rest[i], rest[p - 1]);
                        }
                    }
                }
            } else {
                assert(w[i] == rest[oi]);
                assert(w[j] == rest[oj]);
            }
        }
        broadcast use vstd::seq_lib::group_to_multiset_ensures;

        assert(v =~= v.drop_last().push(x));
        assert(w.to_multiset() =~= rest.to_multiset().insert(x));
        assert(v.to_multiset() =~= v.drop_last().to_multiset().insert(x));
    }
}

/// Puts strings in their order.
pub fn sort_strings(v: &Vec<String>) -> (r: Vec<String>)
    ensures
        texts(r@) == in_order(texts(v@)),
{
    let ghost all = texts(v@);
    let mut out: Vec<String> = Vec::new();
    let mut i: usize = 0;
    assert(all.take(0) =~= Seq::<Seq<char>>::empty());
    assert(texts(out@) =~= Seq::<Seq<char>>::empty());
    while i < v.len()
        invariant
            i <= v@.len(),
            all == texts(v@),
            texts(out@) == in_order(all.take(i as int)),
        decreases v@.len() - i,
    {
        let ghost before = texts(out@);
        let ghost x = all[i as int];
        assert(all.take(i + 1).drop_last() =~= all.take(i as int));
        let mut at: usize = out.len();
        assert(before.take(before.len() as int) =~= before);
        while at > 0 && str_less(v[i].as_str(), out[at - 1].as_str())
            invariant
                i < v@.len(),
                all == texts(v@),
                x == all[i as int],
                at <= out@.len(),
                before == texts(out@),
                place_of(before, x) == place_of(before.take(at as int), x),
            decreases at,
        {
            assert(before.take(at as int).last() == out@[at - 1]@);
            assert(before.take(at as int).drop_last() =~= before.take(at - 1));
            at = at - 1;
        }
        assert(place_of(before.take(at as int), x) == at) by {
            if at > 0 {
                assert(before.take(at as int).last() == out@[at - 1]@);
            }
        }
        out.insert(at, v[i].clone());
        assert(texts(out@) =~= before.insert(at as int, x));
        i = i + 1;
    }
    assert(all.take(all.len() as int) =~= all);
    out
}

proof fn lemma_trim_left_cuts(s: Seq<char>)
    ensures
        trim_left(s).len() <= s.len(),
        trim_left(s) == s.skip(s.len() - trim_left(s).len()),
        forall|i: int| 0 <= i < s.len() - trim_left(s).len() ==> white_space(#[trigger] s[i]),
    decreases s.len(),
{
    if s.len() > 0 && white_space(s.first()) {
        let r = s.drop_first();
        lemma_trim_left_cuts(r);
        assert(r.skip(r.len() - trim_left(r).len()) =~= s.skip(s.len() - trim_left(s).len()));
        assert forall|i: int| 0 <= i < s.len() - trim_left(s).len() implies white_space(
            #[trigger] s[i],
        ) by {
            if i > 0 {
                assert(s[i] == r[i - 1]);
            }
        }
    } else {
        assert(s.skip(0) =~= s);
    }
}

proof fn lemma_trim_right_cuts(s: Seq<char>)
    ensures
        forall|i: int| trim_right(s).len() <= i < s.len() ==> white_space(#[trigger] s[i]),
    decreases s.len(),
{
    if s.len() > 0 && white_space(s.last()) {
        let r = s.drop_last();
        lemma_trim_right_cuts(r);
        assert forall|i: int| trim_right(s).len() <= i < s.len() implies white_space(
            #[trigger] s[i],
        ) by {
            if i < r.len() {
                assert(s[i] == r[i]);
            }
        }
    }
}

/// Trimming takes away the white space at both ends and nothing else: what is left stands
/// in the text, everything before and after it is white space, and it neither begins nor
/// ends with any.
pub proof fn trimming_takes_white_space_alone(s: Seq<char>) -> (a: int)
    ensures
        0 <= a,
        a + trimmed(s).len() <= s.len(),
        trimmed(s) == s.subrange(a, a + trimmed(s).len()),
        forall|i: int| 0 <= i < a ==> white_space(#[trigger] s[i]),
        forall|i: int| a + trimmed(s).len() <= i < s.len() ==> white_space(#[trigger] s[i]),
        trimmed(s).len() > 0 ==> !white_space(trimmed(s).first()) && !white_space(
            trimmed(s).last(),
        ),
{
    let l = trim_left(s);
    let t = trim_right(l);
    lemma_trim_left_cuts(s);
    lemma_trim_left_keeps(s);
    lemma_trim_right_keeps(l);
    lemma_trim_right_cuts(l);
    let a = s.len() - l.len();
    assert(t =~= s.subrange(a, a + t.len()));
    assert forall|i: int| a + t.len() <= i < s.len() implies white_space(#[trigger] s[i]) by {
        assert(s[i] == l[i - a]);
    }
    if t.len() > 0 {
        assert(t.first() == l.first());
    }
    a
}

/// Where a part begins in the parts that are joined.
pub open spec fn start_of(parts: Seq<Seq<char>>, sep: Seq<char>, i: int) -> int
    decreases i,
{
    if i <= 0 {
        0
    } else {
        start_of(parts, sep, i - 1) + parts[i - 1].len() + sep.len()
    }
}

proof fn lemma_start_of(a: Seq<Seq<char>>, b: Seq<Seq<char>>, sep: Seq<char>, i: int)
    requires
        0 <= i <= a.len(),
        i <= b.len(),
        forall|j: int| 0 <= j < i ==> (#[trigger] a[j]) == b[j],
    ensures
        start_of(a, sep, i) == start_of(b, sep, i),
        start_of(a, sep, i) >= 0,
    decreases i,
{
    if i > 0 {
        lemma_start_of(a, b, sep, i - 1);
        assert(a[i - 1] == b[i - 1]);
    }
}

/// Every part stands in what is joined, after all parts before it and the separators
/// between them; a separator follows each but the last, and nothing follows that.
pub proof fn parts_stand_in_their_order(parts: Seq<Seq<char>>, sep: Seq<char>, i: int)
    requires
        0 <= i < parts.len(),
    ensures
        start_of(parts, sep, i) >= 0,
        occurs_at(joined(parts, sep), parts[i], start_of(parts, sep, i)),
        i + 1 < parts.len() ==> occurs_at(
            joined(parts, sep),
            sep,
            start_of(parts, sep, i) + parts[i].len(),
        ),
        i + 1 == parts.len() ==> joined(parts, sep).len() == start_of(parts, sep, i)
            + parts[i].len(),
    decreases parts.len(),
{
    let all = joined(parts, sep);
    if parts.len() == 1 {
        assert(all.subrange(0, all.len() as int) =~= all);
    } else {
        let rest = parts.drop_last();
        let n = rest.len() as int;
        let before = joined(rest, sep);
        parts_stand_in_their_order(rest, sep, n - 1);
        lemma_start_of(rest, parts, sep, n - 1);
        lemma_start_of(rest, parts, sep, n);
        assert(before.len() + sep.len() == start_of(parts, sep, n));
        if i < n {
            parts_stand_in_their_order(rest, sep, i);
            lemma_start_of(rest, parts, sep, i);
            let at = start_of(parts, sep, i);
            assert(all.subrange(at, at + parts[i].len()) =~= before.subrange(
                at,
                at + parts[i].len(),
            ));
            let end = at + parts[i].len();
            if i + 1 < n {
                assert(all.subrange(end, end + sep.len()) =~= before.subrange(
                    end,
                    end + sep.len(),
                ));
            } else {
                assert(all.subrange(end, end + sep.len()) =~= sep);
            }
        } else {
            let at = start_of(parts, sep, n);
            assert(all.subrange(at, at + parts[n].len()) =~= parts[n]);
        }
    }
}

/// Putting one character in the place of another changes each of those and nothing else.
pub proof fn characters_are_replaced_one_by_one(s: Seq<char>, from: Seq<char>, to: Seq<char>)
    requires
        from.len() == 1,
        to.len() == 1,
    ensures
        replaced(s, from, to).len() == s.len(),
        forall|i: int|
            0 <= i < s.len() ==> (#[trigger] replaced(s, from, to)[i]) == if s[i] == from[0] {
                to[0]
            } else {
                s[i]
            },
    decreases s.len(),
{
    if s.len() > 0 {
        let r = s.drop_first();
        characters_are_replaced_one_by_one(r, from, to);
        assert(s.skip(1) =~= r);
        assert(occurs_at(s, from, 0) <==> s[0] == from[0]) by {
            if s[0] == from[0] {
                assert(s.subrange(0, 1) =~= from);
            } else {
                assert(s.subrange(0, 1)[0] != from[0]);
            }
        }
        assert forall|i: int| 0 <= i < s.len() implies (#[trigger] replaced(s, from, to)[i])
            == if s[i] == from[0] {
            to[0]
        } else {
            s[i]
        } by {
            if i > 0 {
                assert(replaced(s, from, to)[i] == replaced(r, from, to)[i - 1]);
                assert(r[i - 1] == s[i]);
            }
        }
    }
}

/// A text in which a pattern does not occur is left as it is; and what stands before its
/// first occurrence is kept, with the replacement after it.
pub proof fn first_occurrence_is_replaced(s: Seq<char>, from: Seq<char>, to: Seq<char>, k: int)
    requires
        from.len() > 0,
        0 <= k <= s.len(),
        forall|i: int| 0 <= i < k ==> !occurs_at(s, from, i),
    ensures
        k == s.len() ==> replaced(s, from, to) == s,
        occurs_at(s, from, k) ==> replaced(s, from, to) == s.take(k) + to + replaced(
            s.skip(k + from.len()),
            from,
            to,
        ),
    decreases s.len(),
{
    if k == 0 {
        assert(s.take(0) + to =~= to);
    } else {
        let r = s.drop_first();
        assert(!occurs_at(s, from, 0));
        assert forall|i: int| 0 <= i < k - 1 implies !occurs_at(r, from, i) by {
            if occurs_at(r, from, i) {
                assert(r.subrange(i, i + from.len()) =~= s.subrange(i + 1, i + 1 + from.len()));
                assert(occurs_at(s, from, i + 1));
            }
        }
        first_occurrence_is_replaced(r, from, to, k - 1);
        if k == s.len() {
            assert(seq![s.first()] + r =~= s);
        }
        if occurs_at(s, from, k) {
            assert(r.subrange(k - 1, k - 1 + from.len()) =~= s.subrange(k, k + from.len()));
            assert(r.skip(k - 1 + from.len()) =~= s.skip(k + from.len()));
            assert(seq![s.first()] + r.take(k - 1) =~= s.take(k));
            assert(replaced(s, from, to) =~= s.take(k) + to + replaced(
                s.skip(k + from.len()),
                from,
                to,
            ));
        }
    }
}

/// The pieces of a text hold no separator, and joined by it they are the text again.
pub proof fn pieces_make_the_text(s: Seq<char>, sep: char)
    ensures
        split_on(s, sep).len() > 0,
        joined(split_on(s, sep), seq![sep]) == s,
        forall|i: int, j: int|
            0 <= i < split_on(s, sep).len() && 0 <= j < split_on(s, sep)[i].len() ==> (
            #[trigger] split_on(s, sep)[i][j]) != sep,
    decreases s.len(),
{
    if s.len() > 0 {
        let r = s.drop_last();
        pieces_make_the_text(r, sep);
        let rest = split_on(r, sep);
        let all = split_on(s, sep);
        if s.last() == sep {
            assert(all.drop_last() =~= rest);
            assert(joined(all, seq![sep]) =~= s);
        } else {
            assert(all.drop_last() =~= rest.drop_last());
            if rest.len() == 1 {
                assert(joined(rest, seq![sep]) == rest[0]);
                assert(all[0] =~= s);
            } else {
                let head = joined(rest.drop_last(), seq![sep]) + seq![sep];
                assert(r == head + rest.last());
                assert(joined(all, seq![sep]) == head + all.last());
                assert(head + rest.last().push(s.last()) =~= (head + rest.last()).push(s.last()));
                assert(r.push(s.last()) =~= s);
            }
            assert forall|i: int, j: int| 0 <= i < all.len() && 0 <= j < all[i].len() implies (
            #[trigger] all[i][j]) != sep by {
                if i < rest.len() - 1 {
                    assert(all[i] == rest[i]);
                } else if j < rest.last().len() {
                    assert(all[i][j] == rest[i][j]);
                }
            }
        }
    }
}

/// The first characters of a text are those, in their order, and all of them where there
/// are no more.
pub proof fn first_characters_are_kept(s: Seq<char>, n: nat)
    ensures
        s.len() <= n ==> first_chars(s, n) == s,
        s.len() > n ==> first_chars(s, n).len() == n,
        forall|i: int|
            0 <= i < first_chars(s, n).len() ==> (#[trigger] first_chars(s, n)[i]) == s[i],
{
}

/// A part begins after the parts before it have ended.
pub proof fn starts_go_up(parts: Seq<Seq<char>>, sep: Seq<char>, i: int, j: int)
    requires
        0 <= i < j <= parts.len(),
    ensures
        start_of(parts, sep, i) + parts[i].len() + sep.len() <= start_of(parts, sep, j),
    decreases j,
{
    if i < j - 1 {
        starts_go_up(parts, sep, i, j - 1);
    }
}

/// A text that was put between two others is found there.
pub proof fn middle_is_found(a: Seq<char>, p: Seq<char>, b: Seq<char>)
    ensures
        occurs_at(a + p + b, p, a.len() as int),
        has_substring(a + p + b, p),
{
    let s = a + p + b;
    assert(s.subrange(a.len() as int, (a.len() + p.len()) as int) =~= p);
    assert(occurs_at(s, p, a.len() as int));
}

} // verus!
