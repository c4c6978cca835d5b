//! Slash-separated paths as text. Two spellings of one path (`a//b`, `a/./b`,
//! `a/b/`) have the same key: whether the path is rooted, and its components.

use crate::text;
use vstd::prelude::*;

verus! {

/// What a path means, whatever its spelling.
pub struct PathKey {
    pub root: bool,
    pub parts: Seq<Seq<char>>,
}

/// The texts between the slashes of `s`, the empty ones included.
pub open spec fn pieces(s: Seq<char>) -> Seq<Seq<char>>
    decreases s.len(),
{
    if s.len() == 0 {
        seq![Seq::<char>::empty()]
    } else {
        let p = pieces(s.drop_last());
        if s.last() == '/' {
            p.push(Seq::<char>::empty())
        } else {
            p.drop_last().push(p.last().push(s.last()))
        }
    }
}

/// A piece that names something: neither empty nor a single dot.
pub open spec fn named(p: Seq<char>) -> bool {
    p.len() > 0 && p != seq!['.']
}

/// The pieces that name something.
pub open spec fn kept(p: Seq<Seq<char>>) -> Seq<Seq<char>>
    decreases p.len(),
{
    if p.len() == 0 {
        Seq::empty()
    } else if named(p.last()) {
        kept(p.drop_last()).push(p.last())
    } else {
        kept(p.drop_last())
    }
}

pub open spec fn rooted(s: Seq<char>) -> bool {
    s.len() > 0 && s[0] == '/'
}

/// Whether the path starts with a component that is a single dot.
pub open spec fn leading_dot(s: Seq<char>) -> bool {
    s.len() > 0 && s[0] == '.' && (s.len() == 1 || s[1] == '/')
}

/// The components of a path. Only a leading dot is a component of its own.
pub open spec fn parts(s: Seq<char>) -> Seq<Seq<char>> {
    if leading_dot(s) {
        seq![seq!['.']] + kept(pieces(s))
    } else {
        kept(pieces(s))
    }
}

pub open spec fn key(s: Seq<char>) -> PathKey {
    PathKey { root: rooted(s), parts: parts(s) }
}

/// `dir` with `tail` below it; a rooted `tail` replaces `dir`.
pub open spec fn joined(dir: Seq<char>, tail: Seq<char>) -> Seq<char> {
    if rooted(tail) || dir.len() == 0 {
        tail
    } else if dir.last() == '/' {
        dir + tail
    } else {
        dir + seq!['/'] + tail
    }
}

/// Whether `prefix` covers a leading run of the components of `path`.
pub open spec fn covers(prefix: PathKey, path: PathKey) -> bool {
    if prefix.root || prefix.parts.len() > 0 {
        prefix.root == path.root && prefix.parts.is_prefix_of(path.parts)
    } else {
        true
    }
}

/// The components of a path, with whether it is rooted.
pub struct PathParts {
    pub root: bool,
    pub parts: Vec<String>,
}

impl View for PathParts {
    type V = PathKey;

    open spec fn view(&self) -> PathKey {
        PathKey { root: self.root, parts: text::texts(self.parts@) }
    }
}

pub proof fn pieces_nonempty(s: Seq<char>)
    ensures
        pieces(s).len() > 0,
    decreases s.len(),
{
    if s.len() > 0 {
        pieces_nonempty(s.drop_last());
    }
}

/// Splits a path into its components.
pub fn split(path: &str) -> (r: PathParts)
    ensures
        r@ == key(path@),
{
    let v: Vec<char> = text::to_chars(path);
    let root: bool = v.len() > 0 && v[0] == '/';
    let mut out: Vec<String> = Vec::new();
    if v.len() > 0 && v[0] == '.' && (v.len() == 1 || v[1] == '/') {
        let mut dot: String = String::new();
        dot.push('.');
        proof {
            assert(dot@ =~= seq!['.']);
        }
        out.push(dot);
    }
    let ghost lead = text::texts(out@);
    proof {
        assert(lead =~= if leading_dot(path@) {
            seq![seq!['.']]
        } else {
            Seq::empty()
        });
    }
    let mut cur: String = String::new();
    let ghost mut closed: Seq<Seq<char>> = Seq::empty();
    let mut i: usize = 0;
    proof {
        assert(path@.take(0) =~= Seq::empty());
        assert(closed.push(cur@) =~= pieces(path@.take(0)));
        assert(lead + kept(closed) =~= text::texts(out@));
    }
    while i < v.len()
        invariant
            i <= v@.len(),
            v@ == path@,
            pieces(path@.take(i as int)) == closed.push(cur@),
            text::texts(out@) == lead + kept(closed),
        decreases v@.len() - i,
    {
        let c: char = v[i];
        proof {
            assert(path@.take(i + 1).drop_last() =~= path@.take(i as int));
            assert(closed.push(cur@).drop_last() =~= closed);
        }
        if c == '/' {
            let ghost before = closed;
            proof {
                closed = closed.push(cur@);
                assert(closed.drop_last() =~= before);
            }
            let ghost prev = out@;
            push_named(&mut out, &cur);
            cur = String::new();
            proof {
                assert(lead + kept(closed) =~= text::texts(out@));
            }
        } else {
            cur.push(c);
        }
        i = i + 1;
    }
    proof {
        assert(path@.take(i as int) =~= path@);
        assert(closed.push(cur@).drop_last() =~= closed);
    }
    push_named(&mut out, &cur);
    proof {
        assert(lead + kept(closed.push(cur@)) =~= text::texts(out@));
        assert(lead + kept(pieces(path@)) =~= parts(path@));
    }
    PathParts { root, parts: out }
}

/// Appends `piece` unless it is empty or a single dot.
fn push_named(out: &mut Vec<String>, piece: &String)
    ensures
        text::texts(final(out)@) == if named(piece@) {
            text::texts(old(out)@).push(piece@)
        } else {
            text::texts(old(out)@)
        },
{
    let mut dot: String = String::new();
    dot.push('.');
    proof {
        assert(dot@ =~= seq!['.']);
    }
    if !piece.as_str().is_empty() && *piece != dot {
        out.push(piece.clone());
        assert(text::texts(out@) =~= text::texts(old(out)@).push(piece@));
    }
}

/// Whether two lists of texts are the same.
fn same_texts(a: &Vec<String>, b: &Vec<String>, n: usize) -> (r: bool)
    requires
        n <= a@.len(),
        n <= b@.len(),
    ensures
        r == (text::texts(a@).take(n as int) == text::texts(b@).take(n as int)),
{
    let mut i: usize = 0;
    while i < n
        invariant
            i <= n,
            n <= a@.len(),
            n <= b@.len(),
            forall|j: int| 0 <= j < i ==> a@[j]@ == b@[j]@,
        decreases n - i,
    {
        if a[i] != b[i] {
            proof {
                assert(text::texts(a@).take(n as int)[i as int] == a@[i as int]@);
                assert(text::texts(b@).take(n as int)[i as int] == b@[i as int]@);
            }
            return false;
        }
        i = i + 1;
    }
    assert(text::texts(a@).take(n as int) =~= text::texts(b@).take(n as int));
    true
}

/// Whether two spellings mean the same path.
pub fn same_path(a: &str, b: &str) -> (r: bool)
    ensures
        r == (key(a@) == key(b@)),
{
    let x: PathParts = split(a);
    let y: PathParts = split(b);
    let n: usize = x.parts.len();
    if x.root != y.root || n != y.parts.len() {
        proof {
            assert(x@.parts.len() == n);
            assert(y@.parts.len() == y.parts@.len());
        }
        return false;
    }
    proof {
        assert(text::texts(x.parts@).take(n as int) =~= x@.parts);
        assert(text::texts(y.parts@).take(n as int) =~= y@.parts);
    }
    same_texts(&x.parts, &y.parts, n)
}

/// Whether `path` lies at or below `prefix`.
pub fn starts_with(path: &str, prefix: &str) -> (r: bool)
    ensures
        r == covers(key(prefix@), key(path@)),
{
    let x: PathParts = split(path);
    let y: PathParts = split(prefix);
    let n: usize = y.parts.len();
    if !y.root && n == 0 {
        return true;
    }
    if x.root != y.root || n > x.parts.len() {
        return false;
    }
    proof {
        assert(text::texts(y.parts@).take(n as int) =~= y@.parts);
        assert(y@.parts.is_prefix_of(x@.parts) == (y@.parts =~= x@.parts.take(n as int)));
    }
    same_texts(&x.parts, &y.parts, n)
}

pub fn is_absolute(path: &str) -> (r: bool)
    ensures
        r == rooted(path@),
{
    let v: Vec<char> = text::to_chars(path);
    v.len() > 0 && v[0] == '/'
}

/// `dir` with `tail` below it.
pub fn join(dir: &str, tail: &str) -> (r: String)
    ensures
        r@ == joined(dir@, tail@),
{
    let n: usize = dir.unicode_len();
    if is_absolute(tail) || n == 0 {
        tail.to_owned()
    } else if dir.get_char(n - 1) == '/' {
        text::cat2(dir, tail)
    } else {
        proof {
            reveal_strlit("/");
            assert("/"@ =~= seq!['/']);
        }
        text::cat3(dir, "/", tail)
    }
}

/// Whether `p` is the parent of `path`: the shortest leading text of it that
/// means everything but its last component.
pub open spec fn parent_text(path: Seq<char>, p: Seq<char>) -> bool {
    &&& p.len() <= path.len()
    &&& p == path.take(p.len() as int)
    &&& key(p) == up(key(path))
    &&& forall|n: int| 0 <= n < p.len() ==> key(#[trigger] path.take(n)) != up(key(path))
}

/// A key without its last component.
pub open spec fn up(k: PathKey) -> PathKey {
    PathKey { root: k.root, parts: k.parts.drop_last() }
}

proof fn pieces_small(c: char)
    ensures
        pieces(Seq::<char>::empty()) == seq![Seq::<char>::empty()],
        kept(seq![Seq::<char>::empty()]) == Seq::<Seq<char>>::empty(),
        c != '/' ==> pieces(seq![c]) == seq![seq![c]],
{
    reveal_with_fuel(kept, 2);
    reveal_with_fuel(pieces, 2);
    assert(seq![Seq::<char>::empty()].drop_last() =~= Seq::empty());
    assert(seq![c].drop_last() =~= Seq::empty());
    assert(Seq::<char>::empty().push(c) =~= seq![c]);
    if c != '/' {
        assert(pieces(seq![c]) =~= seq![seq![c]]);
    }
}

proof fn parent_exists(s: Seq<char>)
    requires
        parts(s).len() > 0,
    ensures
        exists|n: int| 0 <= n <= s.len() && key(#[trigger] s.take(n)) == up(key(s)),
    decreases s.len(),
{
    reveal_with_fuel(kept, 2);
    let t = s.drop_last();
    let n = if s.len() <= 1 {
        pieces_small(if s.len() == 1 { s[0] } else { 'a' });
        assert(s.take(0) =~= Seq::empty());
        if s.len() == 1 {
            assert(s =~= seq![s[0]]);
            assert(pieces(s).drop_last().len() <= 1);
            assert(t =~= Seq::empty());
            if s[0] != '/' {
                assert(pieces(s).drop_last() =~= Seq::empty());
                assert(kept(pieces(s)).len() <= 1);
            } else {
                assert(pieces(s).drop_last() =~= pieces(t));
            }
        } else {
            assert(s =~= Seq::empty());
        }
        assert(up(key(s)).parts =~= parts(s.take(0)));
        0
    } else {
        pieces_nonempty(t);
        let p = pieces(t);
        assert(s.take(t.len() as int) =~= t);
        assert(p =~= p.drop_last().push(p.last()));
        if s.last() == '/' {
            assert(pieces(s).drop_last() =~= p);
            assert(key(s) == key(t));
            parent_exists(t);
            let m = choose|m: int| 0 <= m <= t.len() && key(#[trigger] t.take(m)) == up(key(t));
            assert(s.take(m) =~= t.take(m));
            m
        } else if s.len() == 2 && s[0] == '.' {
            assert(s.take(0) =~= Seq::empty());
            assert(t =~= seq!['.']);
            pieces_small('.');
            assert(pieces(s).drop_last() =~= Seq::empty());
            assert(up(key(s)).parts =~= parts(s.take(0)));
            0
        } else {
            assert(pieces(s).drop_last() =~= p.drop_last());
            assert(pieces(s).last() == p.last().push(s.last()));
            assert(leading_dot(s) == leading_dot(t));
            if named(p.last()) {
                assert(named(pieces(s).last()));
                assert(up(key(s)).parts =~= up(key(t)).parts);
                parent_exists(t);
                let m = choose|m: int|
                    0 <= m <= t.len() && key(#[trigger] t.take(m)) == up(key(t));
                assert(s.take(m) =~= t.take(m));
                m
            } else if named(pieces(s).last()) {
                assert(up(key(s)).parts =~= parts(t));
                t.len() as int
            } else {
                assert(key(s) == key(t));
                parent_exists(t);
                let m = choose|m: int|
                    0 <= m <= t.len() && key(#[trigger] t.take(m)) == up(key(t));
                assert(s.take(m) =~= t.take(m));
                m
            }
        }
    };
    assert(key(s.take(n)) == up(key(s)));
}

/// The parent of a path; `None` for a path without components.
pub fn parent(path: &str) -> (r: Option<String>)
    ensures
        match r {
            Some(p) => parts(path@).len() > 0 && parent_text(path@, p@),
            None => parts(path@).len() == 0,
        },
{
    let whole: PathParts = split(path);
    let count: usize = whole.parts.len();
    proof {
        assert(whole@.parts.len() == count);
    }
    if count == 0 {
        return None;
    }
    let len: usize = path.unicode_len();
    let mut n: usize = 0;
    while n < len
        invariant
            n <= len,
            len == path@.len(),
            whole@ == key(path@),
            count == whole.parts@.len(),
            count > 0,
            forall|m: int| 0 <= m < n ==> key(#[trigger] path@.take(m)) != up(key(path@)),
        decreases len - n,
    {
        let prefix: &str = path.substring_char(0, n);
        proof {
            assert(prefix@ =~= path@.take(n as int));
        }
        let k: PathParts = split(prefix);
        let same: bool = if k.root != whole.root || k.parts.len() != count - 1 {
            proof {
                assert(k@.parts.len() == k.parts@.len());
                assert(up(whole@).parts.len() == count - 1);
            }
            false
        } else {
            let b: bool = same_texts(&k.parts, &whole.parts, count - 1);
            proof {
                assert(text::texts(k.parts@).take(count - 1) =~= k@.parts);
                assert(text::texts(whole.parts@).take(count - 1) =~= up(whole@).parts);
            }
            b
        };
        if same {
            return Some(prefix.to_owned());
        }
        n = n + 1;
    }
    proof {
        parent_exists(path@);
        let m = choose|m: int| 0 <= m <= path@.len() && key(#[trigger] path@.take(m)) == up(key(path@));
        if m == len {
            assert(path@.take(m) =~= path@);
            assert(up(key(path@)).parts.len() != key(path@).parts.len());
        }
        assert(0 <= m < n);
    }
    None
}

/// The directory that holds `path`: its parent, or a dot where it has none.
pub open spec fn dir_of(path: Seq<char>) -> Seq<char> {
    if parts(path).len() == 0 {
        seq!['.']
    } else {
        choose|p: Seq<char>| parent_text(path, p)
    }
}

proof fn parent_unique(path: Seq<char>, p: Seq<char>, q: Seq<char>)
    requires
        parent_text(path, p),
        parent_text(path, q),
    ensures
        p == q,
{
    assert(path.take(p.len() as int) == p);
    assert(path.take(q.len() as int) == q);
}

/// The directory of a path with components is its parent.
pub proof fn dir_of_is_parent(path: Seq<char>)
    requires
        parts(path).len() > 0,
    ensures
        parent_text(path, dir_of(path)),
{
    parent_exists(path);
    let n0 = choose|n: int| 0 <= n <= path.len() && key(#[trigger] path.take(n)) == up(key(path));
    least_parent(path, n0);
}

proof fn least_parent(path: Seq<char>, n: int)
    requires
        0 <= n <= path.len(),
        key(path.take(n)) == up(key(path)),
    ensures
        exists|p: Seq<char>| parent_text(path, p),
    decreases n,
{
    if exists|m: int| 0 <= m < n && key(#[trigger] path.take(m)) == up(key(path)) {
        let m = choose|m: int| 0 <= m < n && key(#[trigger] path.take(m)) == up(key(path));
        least_parent(path, m);
    } else {
        assert(parent_text(path, path.take(n)));
    }
}

/// The directory that holds `path`.
pub fn directory(path: &str) -> (r: String)
    ensures
        r@ == dir_of(path@),
{
    match parent(path) {
        Some(p) => {
            proof {
                parent_unique(path@, p@, dir_of(path@));
            }
            p
        },
        None => {
            proof {
                reveal_strlit(".");
                assert("."@ =~= seq!['.']);
            }
            ".".to_owned()
        },
    }
}

// ---- ordering ----
/// A dot sorts before two dots, which sort before every name.
pub open spec fn rank(p: Seq<char>) -> int {
    if p == seq!['.'] {
        0
    } else if p == seq!['.', '.'] {
        1
    } else {
        2
    }
}

pub open spec fn part_lt(a: Seq<char>, b: Seq<char>) -> bool {
    rank(a) < rank(b) || (rank(a) == rank(b) && text::lt(a, b))
}

pub open spec fn parts_lt(a: Seq<Seq<char>>, b: Seq<Seq<char>>) -> bool
    decreases a.len(),
{
    if b.len() == 0 {
        false
    } else if a.len() == 0 {
        true
    } else if a[0] != b[0] {
        part_lt(a[0], b[0])
    } else {
        parts_lt(a.drop_first(), b.drop_first())
    }
}

/// Component-wise order of paths; the root sorts before every component.
pub open spec fn key_lt(a: PathKey, b: PathKey) -> bool {
    if a.root == b.root {
        parts_lt(a.parts, b.parts)
    } else if a.root {
        b.parts.len() > 0
    } else {
        a.parts.len() == 0
    }
}

proof fn part_lt_order(a: Seq<char>, b: Seq<char>, c: Seq<char>)
    ensures
        !part_lt(a, a),
        part_lt(a, b) && part_lt(b, c) ==> part_lt(a, c),
        part_lt(a, b) || part_lt(b, a) || a == b,
{
    text::lt_irreflexive(a);
    text::lt_total(a, b);
    if text::lt(a, b) && text::lt(b, c) {
        text::lt_transitive(a, b, c);
    }
}

proof fn parts_lt_order(a: Seq<Seq<char>>, b: Seq<Seq<char>>, c: Seq<Seq<char>>)
    ensures
        !parts_lt(a, a),
        parts_lt(a, b) && parts_lt(b, c) ==> parts_lt(a, c),
        parts_lt(a, b) || parts_lt(b, a) || a == b,
    decreases a.len(),
{
    if a.len() > 0 {
        parts_lt_order(a.drop_first(), a.drop_first(), a.drop_first());
        if b.len() > 0 {
            part_lt_order(a[0], b[0], a[0]);
            part_lt_order(b[0], a[0], b[0]);
            if c.len() > 0 {
                part_lt_order(a[0], b[0], c[0]);
            }
            parts_lt_order(a.drop_first(), b.drop_first(), c.drop_first());
            if a[0] == b[0] && a.drop_first() == b.drop_first() {
                assert(a =~= seq![a[0]] + a.drop_first());
                assert(b =~= seq![b[0]] + b.drop_first());
            }
        }
    } else if b.len() == 0 {
        assert(a =~= b);
    }
}

/// `key_lt` is a strict total order.
pub proof fn key_lt_order(a: PathKey, b: PathKey, c: PathKey)
    ensures
        !key_lt(a, a),
        key_lt(a, b) && key_lt(b, c) ==> key_lt(a, c),
        key_lt(a, b) || key_lt(b, a) || a == b,
{
    parts_lt_order(a.parts, b.parts, c.parts);
    if a.parts.len() == 0 && b.parts.len() == 0 {
        assert(a.parts =~= b.parts);
    }
}

fn part_less(a: &String, b: &String) -> (r: bool)
    ensures
        r == part_lt(a@, b@),
{
    let x: u8 = part_rank(a);
    let y: u8 = part_rank(b);
    x < y || (x == y && text::less(a.as_str(), b.as_str()))
}

fn part_rank(p: &String) -> (r: u8)
    ensures
        r == rank(p@),
{
    proof {
        reveal_strlit(".");
        reveal_strlit("..");
        assert("."@ =~= seq!['.']);
        assert(".."@ =~= seq!['.', '.']);
    }
    if text::same(p.as_str(), ".") {
        0
    } else if text::same(p.as_str(), "..") {
        1
    } else {
        2
    }
}

/// Whether path `a` sorts before path `b`.
pub fn path_less(a: &str, b: &str) -> (r: bool)
    ensures
        r == key_lt(key(a@), key(b@)),
{
    let x: PathParts = split(a);
    let y: PathParts = split(b);
    let ghost p = x@.parts;
    let ghost q = y@.parts;
    proof {
        assert(p.len() == x.parts@.len());
        assert(q.len() == y.parts@.len());
    }
    if x.root != y.root {
        return if x.root {
            y.parts.len() > 0
        } else {
            x.parts.len() == 0
        };
    }
    let mut i: usize = 0;
    proof {
        assert(p.skip(0) =~= p);
        assert(q.skip(0) =~= q);
    }
    while i < x.parts.len() && i < y.parts.len()
        invariant
            i <= p.len(),
            i <= q.len(),
            p == text::texts(x.parts@),
            q == text::texts(y.parts@),
            x@ == key(a@),
            y@ == key(b@),
            x.root == y.root,
            parts_lt(p, q) == parts_lt(p.skip(i as int), q.skip(i as int)),
        decreases p.len() - i,
    {
        proof {
            assert(p.skip(i as int)[0] == x.parts@[i as int]@);
            assert(q.skip(i as int)[0] == y.parts@[i as int]@);
            assert(p.skip(i as int).drop_first() =~= p.skip(i + 1));
            assert(q.skip(i as int).drop_first() =~= q.skip(i + 1));
        }
        if x.parts[i] != y.parts[i] {
            return part_less(&x.parts[i], &y.parts[i]);
        }
        i = i + 1;
    }
    i < y.parts.len()
}

// ---- laws ----
proof fn pieces_join(a: Seq<char>, b: Seq<char>)
    ensures
        pieces(a + seq!['/'] + b) == pieces(a) + pieces(b),
    decreases b.len(),
{
    let s = a + seq!['/'] + b;
    if b.len() == 0 {
        assert(s.drop_last() =~= a);
        assert(pieces(s) =~= pieces(a) + pieces(b));
    } else {
        pieces_join(a, b.drop_last());
        pieces_nonempty(b.drop_last());
        assert(s.drop_last() =~= a + seq!['/'] + b.drop_last());
        let pa = pieces(a);
        let pb = pieces(b.drop_last());
        assert((pa + pb).drop_last() =~= pa + pb.drop_last());
        assert(pieces(s) =~= pa + pieces(b));
    }
}

proof fn kept_concat(a: Seq<Seq<char>>, b: Seq<Seq<char>>)
    ensures
        kept(a + b) == kept(a) + kept(b),
    decreases b.len(),
{
    if b.len() == 0 {
        assert(a + b =~= a);
        assert(kept(a) + kept(b) =~= kept(a));
    } else {
        kept_concat(a, b.drop_last());
        assert((a + b).drop_last() =~= a + b.drop_last());
        assert(kept(a + b) =~= kept(a) + kept(b));
    }
}

/// Joining appends the components of a relative tail to those of the
/// directory.
pub proof fn join_appends_components(dir: Seq<char>, tail: Seq<char>)
    requires
        dir.len() > 0,
        tail.len() > 0,
        !rooted(tail),
        !leading_dot(tail),
    ensures
        key(joined(dir, tail)) == (PathKey {
            root: rooted(dir),
            parts: parts(dir) + parts(tail),
        }),
{
    let out = joined(dir, tail);
    let base = if dir.last() == '/' {
        dir.drop_last()
    } else {
        dir
    };
    assert(out =~= base + seq!['/'] + tail);
    pieces_join(base, tail);
    kept_concat(pieces(base), pieces(tail));
    if dir.last() == '/' {
        assert(pieces(dir) == pieces(base).push(Seq::empty()));
        assert(pieces(dir).drop_last() =~= pieces(base));
        assert(kept(pieces(dir)) == kept(pieces(base)));
    }
    assert(leading_dot(out) == leading_dot(dir));
    assert(parts(out) =~= parts(dir) + parts(tail));
}

/// What is joined below a directory lies below it.
pub proof fn join_stays_below(dir: Seq<char>, tail: Seq<char>)
    requires
        dir.len() > 0,
        tail.len() > 0,
        !rooted(tail),
        !leading_dot(tail),
    ensures
        covers(key(dir), key(joined(dir, tail))),
{
    join_appends_components(dir, tail);
    assert(parts(dir).is_prefix_of(parts(dir) + parts(tail)));
}

/// Lying below is reflexive and transitive, on paths that name something.
pub proof fn covers_transitive(a: PathKey, b: PathKey, c: PathKey)
    requires
        covers(a, b),
        covers(b, c),
        a.root || a.parts.len() > 0,
    ensures
        covers(a, c),
        covers(a, a),
{
    assert(a.parts.is_prefix_of(a.parts));
    if b.root || b.parts.len() > 0 {
        assert(a.parts =~= b.parts.take(a.parts.len() as int));
        assert(b.parts =~= c.parts.take(b.parts.len() as int));
        assert(a.parts =~= c.parts.take(a.parts.len() as int));
    }
}

proof fn pieces_have_no_slash(s: Seq<char>)
    ensures
        forall|i: int, j: int|
            0 <= i < pieces(s).len() && 0 <= j < pieces(s)[i].len() ==> #[trigger] pieces(s)[i][j]
                != '/',
    decreases s.len(),
{
    if s.len() > 0 {
        pieces_have_no_slash(s.drop_last());
        pieces_nonempty(s.drop_last());
        let p = pieces(s.drop_last());
        assert forall|i: int, j: int|
            0 <= i < pieces(s).len() && 0 <= j < pieces(s)[i].len() implies #[trigger] pieces(
            s,
        )[i][j] != '/' by {
            if i < p.len() {
                if j < p[i].len() {
                    assert(p[i][j] != '/');
                }
            }
        }
    }
}

proof fn kept_are_named(p: Seq<Seq<char>>)
    ensures
        forall|i: int|
            0 <= i < kept(p).len() ==> named(#[trigger] kept(p)[i]) && p.contains(kept(p)[i]),
    decreases p.len(),
{
    if p.len() > 0 {
        kept_are_named(p.drop_last());
        assert forall|i: int| 0 <= i < kept(p).len() implies named(#[trigger] kept(p)[i])
            && p.contains(kept(p)[i]) by {
            let q = kept(p.drop_last());
            if i < q.len() {
                assert(kept(p)[i] == q[i]);
                let k = choose|k: int| 0 <= k < p.drop_last().len() && p.drop_last()[k] == q[i];
                assert(p[k] == q[i]);
            } else {
                assert(p[p.len() - 1] == kept(p)[i]);
            }
        }
    }
}

/// The components of a rooted path are names without a slash.
pub proof fn rooted_parts_are_names(s: Seq<char>)
    requires
        rooted(s),
    ensures
        forall|i: int|
            0 <= i < parts(s).len() ==> named(#[trigger] parts(s)[i]) && !parts(s)[i].contains('/'),
{
    pieces_have_no_slash(s);
    kept_are_named(pieces(s));
    assert forall|i: int| 0 <= i < parts(s).len() implies named(#[trigger] parts(s)[i])
        && !parts(s)[i].contains('/') by {
        let x = kept(pieces(s))[i];
        assert(pieces(s).contains(x));
        let k = choose|k: int| 0 <= k < pieces(s).len() && pieces(s)[k] == x;
        if x.contains('/') {
            let j = choose|j: int| 0 <= j < x.len() && x[j] == '/';
            assert(pieces(s)[k][j] != '/');
        }
    }
}

/// A slash at the end of a path does not change what it means.
pub proof fn trailing_slash(s: Seq<char>)
    requires
        s.len() > 0,
    ensures
        key(s.push('/')) == key(s),
{
    let t = s.push('/');
    assert(t.drop_last() =~= s);
    assert(pieces(t).drop_last() =~= pieces(s));
    assert(leading_dot(t) == leading_dot(s));
}

/// The root has no components.
pub proof fn root_has_no_parts()
    ensures
        key("/"@) == (PathKey { root: true, parts: Seq::empty() }),
{
    reveal_strlit("/");
    assert("/"@ =~= seq!['/']);
    pieces_small('a');
    assert(seq!['/'].drop_last() =~= Seq::empty());
    assert(pieces(seq!['/']).drop_last() =~= seq![Seq::<char>::empty()]);
    assert(kept(pieces(seq!['/'])) == kept(seq![Seq::<char>::empty()]));
}

} // verus!
