//! File paths as text, with `/` between their components.
use crate::names;
use crate::text;
use vstd::prelude::*;

verus! {

/// The pieces of `s` between its slashes.
pub open spec fn pieces(s: Seq<char>) -> Seq<Seq<char>>
    decreases s.len(),
{
    let end = text::first_at(s, '/') as int;
    if end >= s.len() {
        seq![s]
    } else {
        seq![s.subrange(0, end)] + pieces(text::after(s, end + 1))
    }
}

/// The pieces that count: not the empty ones, and no `.` except one that starts a relative path.
pub open spec fn counted(all: Seq<Seq<char>>, leading: bool) -> Seq<Seq<char>>
    decreases all.len(),
{
    if all.len() == 0 {
        Seq::empty()
    } else {
        let rest = counted(all.drop_first(), false);
        if all[0].len() == 0 || (all[0] == "."@ && !leading) {
            rest
        } else {
            seq![all[0]] + rest
        }
    }
}

pub open spec fn is_absolute(path: Seq<char>) -> bool {
    path.len() > 0 && path[0] == '/'
}

/// The components of a path behind its root.
pub open spec fn components(path: Seq<char>) -> Seq<Seq<char>> {
    counted(pieces(path), true)
}

/// Two paths lead to one place by their text alone: both have a root or neither has one, and
/// their components are equal.
pub open spec fn same_place(a: Seq<char>, b: Seq<char>) -> bool {
    is_absolute(a) == is_absolute(b) && components(a) == components(b)
}

/// `part` inside the directory `base`; an absolute `part` stands for itself.
pub open spec fn joined(base: Seq<char>, part: Seq<char>) -> Seq<char> {
    if is_absolute(part) {
        part
    } else if base.len() == 0 || base.last() == '/' {
        base + part
    } else {
        base + "/"@ + part
    }
}

/// `part` inside the directory `base`.
pub fn join_path(base: &str, part: &str) -> (r: String)
    ensures
        r@ == joined(base@, part@),
{
    let n = base.unicode_len();
    if part.unicode_len() > 0 && part.get_char(0) == '/' {
        return part.to_owned();
    }
    let mut out = base.to_owned();
    if n > 0 && base.get_char(n - 1) != '/' {
        out.append("/");
    }
    out.append(part);
    out
}

/// The pieces of a path between its slashes.
fn split_path(path: &str) -> (r: Vec<&str>)
    ensures
        r.deep_view() == pieces(path@),
    decreases path@.len(),
{
    match text::find(path, '/') {
        None => {
            let mut out: Vec<&str> = Vec::new();
            names::put(&mut out, path);
            assert(out.deep_view() =~= seq![path@]);
            out
        },
        Some(i) => {
            let n = path.unicode_len();
            let mut out: Vec<&str> = Vec::new();
            out.push(path.substring_char(0, i));
            let mut rest = split_path(path.substring_char(i + 1, n));
            let ghost tail = rest.deep_view();
            out.append(&mut rest);
            assert(out.deep_view() =~= seq![path@.subrange(0, i as int)] + tail);
            out
        },
    }
}

proof fn lemma_counted_step(all: Seq<Seq<char>>, k: int)
    requires
        0 <= k < all.len(),
    ensures
        counted(all.subrange(0, k + 1), true) == (if all[k].len() == 0 || (all[k] == "."@ && k > 0) {
            counted(all.subrange(0, k), true)
        } else {
            counted(all.subrange(0, k), true).push(all[k])
        }),
{
    lemma_counted_last(all.subrange(0, k + 1), true);
    assert(all.subrange(0, k + 1).drop_last() =~= all.subrange(0, k));
}

proof fn lemma_counted_last(all: Seq<Seq<char>>, leading: bool)
    requires
        all.len() > 0,
    ensures
        counted(all, leading) == (if all.last().len() == 0 || (all.last() == "."@ && !(leading && all.len() == 1)) {
            counted(all.drop_last(), leading)
        } else {
            counted(all.drop_last(), leading).push(all.last())
        }),
    decreases all.len(),
{
    if all.len() == 1 {
        reveal_with_fuel(counted, 2);
        assert(all.drop_first() =~= Seq::empty());
        assert(all.drop_last() =~= Seq::empty());
        assert(seq![all[0]] + Seq::<Seq<char>>::empty() =~= Seq::<Seq<char>>::empty().push(all[0]));
    } else {
        let tail = all.drop_first();
        lemma_counted_last(tail, false);
        assert(tail.drop_last() =~= all.drop_last().drop_first());
        assert(all.drop_last()[0] == all[0]);
        let mid = counted(tail.drop_last(), false);
        assert(seq![all[0]] + mid.push(all.last()) =~= (seq![all[0]] + mid).push(all.last()));
    }
}

/// The components of a path behind its root.
pub fn path_components(path: &str) -> (r: Vec<&str>)
    ensures
        r.deep_view() == components(path@),
{
    let all = split_path(path);
    let mut out: Vec<&str> = Vec::new();
    let mut i: usize = 0;
    assert(all.deep_view().subrange(0, 0) =~= Seq::empty());
    assert(out.deep_view() =~= Seq::empty());
    while i < all.len()
        invariant
            i <= all.len(),
            out.deep_view() == counted(all.deep_view().subrange(0, i as int), true),
        decreases all.len() - i,
    {
        let piece = all[i];
        proof {
            lemma_counted_step(all.deep_view(), i as int);
            assert(all.deep_view()[i as int] == piece@);
        }
        if !(piece.is_empty() || (text::same(piece, ".") && i > 0)) {
            names::put(&mut out, piece);
        }
        i = i + 1;
    }
    assert(all.deep_view().subrange(0, all.len() as int) =~= all.deep_view());
    out
}

/// Whether two paths lead to one place by their text alone.
pub fn same_path(a: &str, b: &str) -> (r: bool)
    ensures
        r == same_place(a@, b@),
{
    let a_root = a.unicode_len() > 0 && a.get_char(0) == '/';
    let b_root = b.unicode_len() > 0 && b.get_char(0) == '/';
    if a_root != b_root {
        return false;
    }
    let x = path_components(a);
    let y = path_components(b);
    if x.len() != y.len() {
        assert(x.deep_view().len() != y.deep_view().len());
        return false;
    }
    let mut i: usize = 0;
    while i < x.len()
        invariant
            i <= x.len(),
            x.len() == y.len(),
            x.deep_view() == components(a@),
            y.deep_view() == components(b@),
            forall|j: int| 0 <= j < i ==> x.deep_view()[j] == y.deep_view()[j],
        decreases x.len() - i,
    {
        if !text::same(x[i], y[i]) {
            assert(x.deep_view()[i as int] != y.deep_view()[i as int]);
            return false;
        }
        i = i + 1;
    }
    assert(x.deep_view() =~= y.deep_view());
    true
}

/// Every path leads to the same place as itself, and the relation goes both ways and on.
pub proof fn lemma_same_place_is_an_equivalence(a: Seq<char>, b: Seq<char>, c: Seq<char>)
    ensures
        same_place(a, a),
        same_place(a, b) ==> same_place(b, a),
        same_place(a, b) && same_place(b, c) ==> same_place(a, c),
{
}

} // verus!
