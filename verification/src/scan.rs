//! Scanning of text: lines, pieces, occurrences and trimming.

use crate::text;
use vstd::prelude::*;

verus! {

/// The texts between the occurrences of `sep`, the empty ones included.
pub open spec fn cut(s: Seq<char>, sep: char) -> Seq<Seq<char>>
    decreases s.len(),
{
    if s.len() == 0 {
        seq![Seq::<char>::empty()]
    } else {
        let p = cut(s.drop_last(), sep);
        if s.last() == sep {
            p.push(Seq::<char>::empty())
        } else {
            p.drop_last().push(p.last().push(s.last()))
        }
    }
}

/// A line without the carriage return that ends it.
pub open spec fn without_cr(l: Seq<char>) -> Seq<char> {
    if l.len() > 0 && l.last() == '\r' {
        l.drop_last()
    } else {
        l
    }
}

/// The lines of a text: each ends at a line feed, with a carriage return
/// before it dropped; what follows the last line feed is a line if it is not
/// empty.
pub open spec fn lines_of(s: Seq<char>) -> Seq<Seq<char>> {
    let p = cut(s, '\n');
    let ended = p.drop_last().map_values(|l: Seq<char>| without_cr(l));
    if p.last().len() == 0 {
        ended
    } else {
        ended.push(p.last())
    }
}

/// The pieces of `s` between the occurrences of `sep`.
pub fn cut_at(s: &str, sep: char) -> (r: Vec<String>)
    ensures
        text::texts(r@) == cut(s@, sep),
        r@.len() > 0,
{
    let v: Vec<char> = text::to_chars(s);
    let mut out: Vec<String> = Vec::new();
    let mut cur: String = String::new();
    let mut i: usize = 0;
    proof {
        assert(s@.take(0) =~= Seq::empty());
        assert(text::texts(out@).push(cur@) =~= cut(s@.take(0), sep));
    }
    while i < v.len()
        invariant
            i <= v@.len(),
            v@ == s@,
            cut(s@.take(i as int), sep) == text::texts(out@).push(cur@),
        decreases v@.len() - i,
    {
        let c: char = v[i];
        proof {
            assert(s@.take(i + 1).drop_last() =~= s@.take(i as int));
            assert(text::texts(out@).push(cur@).drop_last() =~= text::texts(out@));
        }
        if c == sep {
            let ghost before = text::texts(out@);
            let ghost piece = cur@;
            out.push(cur);
            cur = String::new();
            proof {
                assert(text::texts(out@) =~= before.push(piece));
            }
        } else {
            cur.push(c);
        }
        i = i + 1;
    }
    let ghost before = text::texts(out@);
    let ghost piece = cur@;
    out.push(cur);
    proof {
        assert(s@.take(i as int) =~= s@);
        assert(text::texts(out@) =~= before.push(piece));
    }
    out
}

/// The lines of `s`.
pub fn lines(s: &str) -> (r: Vec<String>)
    ensures
        text::texts(r@) == lines_of(s@),
{
    let pieces: Vec<String> = cut_at(s, '\n');
    let ghost p = cut(s@, '\n');
    let mut out: Vec<String> = Vec::new();
    let last: usize = pieces.len() - 1;
    let ghost ended = p.drop_last().map_values(|l: Seq<char>| without_cr(l));
    let mut i: usize = 0;
    while i < last
        invariant
            i <= last,
            last == pieces@.len() - 1,
            text::texts(pieces@) == p,
            ended == p.drop_last().map_values(|l: Seq<char>| without_cr(l)),
            text::texts(out@) == ended.take(i as int),
        decreases last - i,
    {
        let l: &str = pieces[i].as_str();
        let n: usize = l.unicode_len();
        let line: String = if n > 0 && l.get_char(n - 1) == '\r' {
            let head: &str = l.substring_char(0, n - 1);
            proof {
                assert(head@ =~= l@.drop_last());
            }
            head.to_owned()
        } else {
            l.to_owned()
        };
        let ghost before = out@;
        out.push(line);
        proof {
            assert(p[i as int] == pieces@[i as int]@);
            assert(text::texts(out@) =~= text::texts(before).push(line@));
            assert(ended.take(i + 1) =~= ended.take(i as int).push(ended[i as int]));
        }
        i = i + 1;
    }
    proof {
        assert(ended.take(last as int) =~= ended);
        assert(p.last() == pieces@[last as int]@);
    }
    if !pieces[last].as_str().is_empty() {
        let ghost before = out@;
        out.push(pieces[last].clone());
        proof {
            assert(text::texts(out@) =~= text::texts(before).push(p.last()));
        }
    }
    out
}

// ---- trimming ----
/// A set of characters that can be trimmed.
#[derive(Debug, Clone, Copy, PartialEq, Eq, Structural)]
pub enum Class {
    /// White space.
    Space,
    /// The double quote.
    Quote,
    /// The signs between a field name and its value: `:`, `=` and `>`.
    Separator,
}

pub open spec fn in_class(k: Class, c: char) -> bool {
    match k {
        Class::Space => text::whitespace(c),
        Class::Quote => c == '"',
        Class::Separator => c == ':' || c == '=' || c == '>',
    }
}

fn is_in_class(k: Class, c: char) -> (r: bool)
    ensures
        r == in_class(k, c),
{
    match k {
        Class::Space => text::is_whitespace(c),
        Class::Quote => c == '"',
        Class::Separator => c == ':' || c == '=' || c == '>',
    }
}

/// `s` without its leading characters of class `k`.
pub open spec fn left_trimmed(s: Seq<char>, k: Class) -> Seq<char>
    decreases s.len(),
{
    if s.len() > 0 && in_class(k, s[0]) {
        left_trimmed(s.drop_first(), k)
    } else {
        s
    }
}

/// `s` without its trailing characters of class `k`.
pub open spec fn right_trimmed(s: Seq<char>, k: Class) -> Seq<char>
    decreases s.len(),
{
    if s.len() > 0 && in_class(k, s.last()) {
        right_trimmed(s.drop_last(), k)
    } else {
        s
    }
}

pub open spec fn trimmed(s: Seq<char>, k: Class) -> Seq<char> {
    right_trimmed(left_trimmed(s, k), k)
}

pub fn trim_left(s: &str, k: Class) -> (r: String)
    ensures
        r@ == left_trimmed(s@, k),
{
    let v: Vec<char> = text::to_chars(s);
    let mut i: usize = 0;
    proof {
        assert(s@.skip(0) =~= s@);
    }
    while i < v.len() && is_in_class(k, v[i])
        invariant
            i <= v@.len(),
            v@ == s@,
            left_trimmed(s@, k) == left_trimmed(s@.skip(i as int), k),
        decreases v@.len() - i,
    {
        proof {
            assert(s@.skip(i as int).drop_first() =~= s@.skip(i + 1));
        }
        i = i + 1;
    }
    let rest: &str = s.substring_char(i, v.len());
    proof {
        assert(rest@ =~= s@.skip(i as int));
    }
    rest.to_owned()
}

pub fn trim_right(s: &str, k: Class) -> (r: String)
    ensures
        r@ == right_trimmed(s@, k),
{
    let v: Vec<char> = text::to_chars(s);
    let mut n: usize = v.len();
    proof {
        assert(s@.take(n as int) =~= s@);
    }
    while n > 0 && is_in_class(k, v[n - 1])
        invariant
            n <= v@.len(),
            v@ == s@,
            right_trimmed(s@, k) == right_trimmed(s@.take(n as int), k),
        decreases n,
    {
        proof {
            assert(s@.take(n as int).drop_last() =~= s@.take(n - 1));
        }
        n = n - 1;
    }
    let head: &str = s.substring_char(0, n);
    proof {
        assert(head@ =~= s@.take(n as int));
    }
    head.to_owned()
}

pub fn trim(s: &str, k: Class) -> (r: String)
    ensures
        r@ == trimmed(s@, k),
{
    let left: String = trim_left(s, k);
    trim_right(left.as_str(), k)
}

// ---- occurrences ----
/// Whether `needle` stands in `s` at `i`.
pub open spec fn occurs_at(s: Seq<char>, needle: Seq<char>, i: int) -> bool {
    0 <= i && i + needle.len() <= s.len() && s.subrange(i, i + needle.len()) == needle
}

pub open spec fn occurs(s: Seq<char>, needle: Seq<char>) -> bool {
    exists|i: int| occurs_at(s, needle, i)
}

/// Whether `i` is the first place at which `needle` stands in `s`.
pub open spec fn first_at(s: Seq<char>, needle: Seq<char>, i: int) -> bool {
    occurs_at(s, needle, i) && forall|j: int| 0 <= j < i ==> !occurs_at(s, needle, j)
}

/// What follows the first occurrence of `needle`, if there is one.
pub open spec fn after_first(s: Seq<char>, needle: Seq<char>) -> Option<Seq<char>> {
    if occurs(s, needle) {
        let i = choose|i: int| first_at(s, needle, i);
        Some(s.skip(i + needle.len()))
    } else {
        None
    }
}

/// What follows the first occurrence of `needle` in `s`.
pub fn after(s: &str, needle: &str) -> (r: Option<String>)
    ensures
        text::opt_text(r) == after_first(s@, needle@),
{
    let n: usize = s.unicode_len();
    let m: usize = needle.unicode_len();
    let mut i: usize = 0;
    while m <= n && i <= n - m
        invariant
            n == s@.len(),
            m == needle@.len(),
            m <= n ==> i <= n - m + 1,
            m > n ==> i == 0,
            forall|j: int| 0 <= j < i ==> !occurs_at(s@, needle@, j),
        decreases n - m + 1 - i,
    {
        let part: &str = s.substring_char(i, i + m);
        if text::same(part, needle) {
            let rest: &str = s.substring_char(i + m, n);
            proof {
                assert(first_at(s@, needle@, i as int));
                assert(occurs_at(s@, needle@, i as int));
                let k = choose|k: int| first_at(s@, needle@, k);
                assert(k == i) by {
                    assert(first_at(s@, needle@, k));
                    if k < i {
                        assert(!occurs_at(s@, needle@, k));
                    }
                    if i < k {
                        assert(!occurs_at(s@, needle@, i as int));
                    }
                }
                assert(rest@ =~= s@.skip(i + m));
            }
            return Some(rest.to_owned());
        }
        if i == n - m {
            proof {
                assert forall|j: int| !occurs_at(s@, needle@, j) by {
                    if occurs_at(s@, needle@, j) {
                        assert(j <= n - m);
                    }
                }
            }
            return None;
        }
        i = i + 1;
    }
    proof {
        assert forall|j: int| !occurs_at(s@, needle@, j) by {
            if occurs_at(s@, needle@, j) {
                assert(j <= n - m);
            }
        }
    }
    None
}

/// What precedes the first occurrence of `needle`; all of `s`, if there is
/// none.
pub open spec fn before_first(s: Seq<char>, needle: Seq<char>) -> Seq<char> {
    if occurs(s, needle) {
        let i = choose|i: int| first_at(s, needle, i);
        s.take(i)
    } else {
        s
    }
}

proof fn first_exists(s: Seq<char>, needle: Seq<char>, i: int)
    requires
        occurs_at(s, needle, i),
    ensures
        exists|k: int| first_at(s, needle, k),
    decreases i,
{
    if exists|j: int| 0 <= j < i && occurs_at(s, needle, j) {
        let j = choose|j: int| 0 <= j < i && occurs_at(s, needle, j);
        first_exists(s, needle, j);
    } else {
        assert(first_at(s, needle, i));
    }
}

/// What precedes the first occurrence of `needle` in `s`.
pub fn before(s: &str, needle: &str) -> (r: String)
    ensures
        r@ == before_first(s@, needle@),
{
    match after(s, needle) {
        None => s.to_owned(),
        Some(rest) => {
            let ghost k = choose|k: int| first_at(s@, needle@, k);
            proof {
                let i = choose|i: int| occurs_at(s@, needle@, i);
                first_exists(s@, needle@, i);
                assert(first_at(s@, needle@, k));
                assert(rest@ == s@.skip(k + needle@.len()));
            }
            let end: usize = s.unicode_len() - rest.as_str().unicode_len() - needle.unicode_len();
            let head: &str = s.substring_char(0, end);
            proof {
                assert(head@ =~= s@.take(k));
            }
            head.to_owned()
        },
    }
}

/// Whether `needle` stands somewhere in `s`.
pub fn contains(s: &str, needle: &str) -> (r: bool)
    ensures
        r == occurs(s@, needle@),
{
    after(s, needle).is_some()
}

/// `s` without the characters `c`.
pub open spec fn without(s: Seq<char>, c: char) -> Seq<char>
    decreases s.len(),
{
    if s.len() == 0 {
        s
    } else if s.last() == c {
        without(s.drop_last(), c)
    } else {
        without(s.drop_last(), c).push(s.last())
    }
}

/// Removes every `c` from `s`.
pub fn remove_char(s: &str, c: char) -> (r: String)
    ensures
        r@ == without(s@, c),
{
    let v: Vec<char> = text::to_chars(s);
    let mut out: String = String::new();
    let mut i: usize = 0;
    proof {
        assert(s@.take(0) =~= Seq::empty());
    }
    while i < v.len()
        invariant
            i <= v@.len(),
            v@ == s@,
            out@ == without(s@.take(i as int), c),
        decreases v@.len() - i,
    {
        proof {
            assert(s@.take(i + 1).drop_last() =~= s@.take(i as int));
        }
        if v[i] != c {
            out.push(v[i]);
        }
        i = i + 1;
    }
    proof {
        assert(s@.take(i as int) =~= s@);
    }
    out
}

/// The texts of a list, with `sep` between them.
pub open spec fn glued(list: Seq<Seq<char>>, sep: Seq<char>) -> Seq<char>
    decreases list.len(),
{
    if list.len() == 0 {
        Seq::empty()
    } else if list.len() == 1 {
        list[0]
    } else {
        glued(list.drop_last(), sep) + sep + list.last()
    }
}

/// Joins the texts of a list with `sep` between them.
pub fn glue(list: &Vec<String>, sep: &str) -> (r: String)
    ensures
        r@ == glued(text::texts(list@), sep@),
{
    let mut out: String = String::new();
    let mut i: usize = 0;
    let ghost all = text::texts(list@);
    proof {
        assert(all.take(0) =~= Seq::empty());
    }
    while i < list.len()
        invariant
            i <= list@.len(),
            all == text::texts(list@),
            out@ == glued(all.take(i as int), sep@),
        decreases list@.len() - i,
    {
        proof {
            assert(all.take(i + 1).drop_last() =~= all.take(i as int));
            assert(all.take(i + 1).last() == list@[i as int]@);
        }
        if i > 0 {
            out.append(sep);
        }
        out.append(list[i].as_str());
        proof {
            if i == 0 {
                assert(out@ =~= all.take(1)[0]);
            }
        }
        i = i + 1;
    }
    proof {
        assert(all.take(i as int) =~= all);
    }
    out
}

// ---- laws ----
pub proof fn cut_nonempty(s: Seq<char>, sep: char)
    ensures
        cut(s, sep).len() > 0,
    decreases s.len(),
{
    if s.len() > 0 {
        cut_nonempty(s.drop_last(), sep);
    }
}

/// Text without the separator extends the last piece.
pub proof fn cut_extends_last(a: Seq<char>, b: Seq<char>, sep: char)
    requires
        !b.contains(sep),
    ensures
        cut(a + b, sep) == cut(a, sep).drop_last().push(cut(a, sep).last() + b),
    decreases b.len(),
{
    cut_nonempty(a, sep);
    let p = cut(a, sep);
    if b.len() == 0 {
        assert(a + b =~= a);
        assert(p.last() + b =~= p.last());
        assert(p.drop_last().push(p.last()) =~= p);
    } else {
        let c = b.drop_last();
        assert(!c.contains(sep)) by {
            if c.contains(sep) {
                let i = choose|i: int| 0 <= i < c.len() && c[i] == sep;
                assert(b[i] == sep);
            }
        }
        cut_extends_last(a, c, sep);
        assert((a + b).drop_last() =~= a + c);
        assert(b.last() != sep) by {
            assert(b[b.len() - 1] == b.last());
        }
        let q = cut(a + c, sep);
        assert(q.drop_last() =~= p.drop_last());
        assert((p.last() + c).push(b.last()) =~= p.last() + b);
    }
}

} // verus!
