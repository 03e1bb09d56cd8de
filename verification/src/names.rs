//! Lists of named things, kept in the order of their names.
use crate::text;
use vstd::prelude::*;

verus! {

/// A thing with a name, which says where it stands in a sorted list.
pub trait Named: DeepView {
    /// The name in the model of the thing.
    spec fn name_in(model: Self::V) -> Seq<char>;

    fn own_name(&self) -> (r: &str)
        ensures
            r@ == Self::name_in(self.deep_view()),
    ;
}

impl Named for String {
    open spec fn name_in(model: Seq<char>) -> Seq<char> {
        model
    }

    fn own_name(&self) -> (r: &str) {
        self.as_str()
    }
}

/// The test for one name.
pub open spec fn is_named<T: Named>(name: Seq<char>) -> spec_fn(T::V) -> bool {
    |x: T::V| T::name_in(x) == name
}

/// The test for any other name.
pub open spec fn is_not_named<T: Named>(name: Seq<char>) -> spec_fn(T::V) -> bool {
    |x: T::V| T::name_in(x) != name
}

/// The elements of that name, in the order in which they stand.
pub open spec fn with_name<T: Named>(list: Seq<T::V>, name: Seq<char>) -> Seq<T::V> {
    list.filter(is_named::<T>(name))
}

/// The elements of another name, in the order in which they stand.
pub open spec fn without_name<T: Named>(list: Seq<T::V>, name: Seq<char>) -> Seq<T::V> {
    list.filter(is_not_named::<T>(name))
}

/// Some element has that name.
pub open spec fn has_name<T: Named>(list: Seq<T::V>, name: Seq<char>) -> bool {
    exists|i: int| 0 <= i < list.len() && T::name_in(#[trigger] list[i]) == name
}

/// No element has a name that stands before the name of an earlier one.
pub open spec fn sorted<T: Named>(list: Seq<T::V>) -> bool {
    forall|i: int, j: int|
        0 <= i < j < list.len() ==> !text::precedes(
            T::name_in(#[trigger] list[j]),
            T::name_in(#[trigger] list[i]),
        )
}

/// `b` holds the elements of `a` in the order of their names, and those of one name in the order
/// in which `a` has them.
pub open spec fn sorted_from<T: Named>(a: Seq<T::V>, b: Seq<T::V>) -> bool {
    &&& sorted::<T>(b)
    &&& forall|name: Seq<char>| with_name::<T>(b, name) == #[trigger] with_name::<T>(a, name)
}

/// Each string stands before the next one.
pub open spec fn ascending(list: Seq<Seq<char>>) -> bool {
    forall|i: int, j: int| 0 <= i < j < list.len() ==> text::precedes(#[trigger] list[i], #[trigger] list[j])
}

/// `b` holds each string of `a` once, in order.
pub open spec fn distinct_from(a: Seq<Seq<char>>, b: Seq<Seq<char>>) -> bool {
    &&& ascending(b)
    &&& forall|s: Seq<char>| #[trigger] b.contains(s) <==> a.contains(s)
}

/// Adds one element to a list.
pub fn put<T: DeepView>(list: &mut Vec<T>, item: T)
    ensures
        final(list).deep_view() == old(list).deep_view().push(item.deep_view()),
{
    list.push(item);
    assert(list.deep_view() =~= old(list).deep_view().push(item.deep_view()));
}

/// The first element of that name.
pub fn position<T: Named>(list: &Vec<T>, name: &str) -> (r: Option<usize>)
    ensures
        r is Some <==> has_name::<T>(list.deep_view(), name@),
        r matches Some(i) ==> i < list.len() && T::name_in(list.deep_view()[i as int]) == name@
            && !has_name::<T>(list.deep_view().subrange(0, i as int), name@),
{
    let mut i: usize = 0;
    while i < list.len()
        invariant
            i <= list.len(),
            forall|j: int| 0 <= j < i ==> T::name_in(#[trigger] list.deep_view()[j]) != name@,
        decreases list.len() - i,
    {
        if text::same(list[i].own_name(), name) {
            assert(T::name_in(list.deep_view()[i as int]) == name@);
            return Some(i);
        }
        i = i + 1;
    }
    None
}

proof fn lemma_swap_keeps_classes<T: Named>(list: Seq<T::V>, j: int)
    requires
        0 < j < list.len(),
        T::name_in(list[j]) != T::name_in(list[j - 1]),
    ensures
        forall|name: Seq<char>|
            with_name::<T>(list.remove(j).insert(j - 1, list[j]), name) == #[trigger] with_name::<T>(list, name),
{
    let other = list.remove(j).insert(j - 1, list[j]);
    let front = list.subrange(0, j - 1);
    let back = list.subrange(j + 1, list.len() as int);
    let y = list[j - 1];
    let x = list[j];
    assert(list =~= front + seq![y, x] + back);
    assert(other =~= front + seq![x, y] + back);
    assert forall|name: Seq<char>| with_name::<T>(other, name) == #[trigger] with_name::<T>(list, name) by {
        let p = is_named::<T>(name);
        broadcast use Seq::filter_distributes_over_add;
        assert(seq![y, x].filter(p) == seq![x, y].filter(p)) by {
            reveal(Seq::filter);
            assert(seq![y, x].drop_last() =~= seq![y]);
            assert(seq![x, y].drop_last() =~= seq![x]);
            assert(seq![x].drop_last() =~= Seq::<T::V>::empty());
            assert(seq![y].drop_last() =~= Seq::<T::V>::empty());
            reveal_with_fuel(Seq::filter, 4);
            assert(seq![y, x].filter(p) =~= seq![x, y].filter(p));
        }
        assert(with_name::<T>(list, name) == list.filter(p));
        assert(with_name::<T>(other, name) == other.filter(p));
    }
}

/// Puts a list into the order of its names.
pub fn sort_by_name<T: Named>(list: &mut Vec<T>)
    ensures
        sorted_from::<T>(old(list).deep_view(), final(list).deep_view()),
        final(list).len() == old(list).len(),
{
    let n = list.len();
    let ghost start = list.deep_view();
    let mut i: usize = 0;
    while i < n
        invariant
            i <= n,
            n == list.len(),
            sorted::<T>(list.deep_view().subrange(0, i as int)),
            forall|name: Seq<char>| with_name::<T>(list.deep_view(), name) == #[trigger] with_name::<T>(start, name),
        decreases n - i,
    {
        let mut j: usize = i;
        proof {
            let now = list.deep_view();
            let front = now.subrange(0, i as int);
            assert forall|p: int, q: int| 0 <= p < q <= i && q != j implies !text::precedes(
                T::name_in(#[trigger] now[q]),
                T::name_in(#[trigger] now[p]),
            ) by {
                assert(front[p] == now[p] && front[q] == now[q]);
            }
        }
        while j > 0 && text::comes_before(list[j].own_name(), list[j - 1].own_name())
            invariant
                j <= i < n,
                n == list.len(),
                forall|p: int, q: int|
                    0 <= p < q <= i && q != j ==> !text::precedes(
                        T::name_in(#[trigger] list.deep_view()[q]),
                        T::name_in(#[trigger] list.deep_view()[p]),
                    ),
                forall|name: Seq<char>| with_name::<T>(list.deep_view(), name) == #[trigger] with_name::<T>(start, name),
            decreases j,
        {
            let ghost before = list.deep_view();
            let item = list.remove(j);
            list.insert(j - 1, item);
            proof {
                let now = list.deep_view();
                assert(now =~= before.remove(j as int).insert(j - 1, before[j as int]));
                if T::name_in(before[j as int]) == T::name_in(before[j - 1]) {
                    text::lemma_precedes_irreflexive(T::name_in(before[j as int]));
                }
                lemma_swap_keeps_classes::<T>(before, j as int);
                assert forall|p: int, q: int| 0 <= p < q <= i && q != j - 1 implies !text::precedes(
                    T::name_in(#[trigger] now[q]),
                    T::name_in(#[trigger] now[p]),
                ) by {
                    let p0 = if p == j - 1 { j as int } else if p == j { j - 1 } else { p };
                    let q0 = if q == j { j - 1 } else { q };
                    assert(now[p] == before[p0]);
                    assert(now[q] == before[q0]);
                    if p0 == j && q0 == j - 1 {
                        if text::precedes(T::name_in(before[q0]), T::name_in(before[p0])) {
                            text::lemma_precedes_transitive(
                                T::name_in(before[p0]),
                                T::name_in(before[q0]),
                                T::name_in(before[p0]),
                            );
                            text::lemma_precedes_irreflexive(T::name_in(before[p0]));
                        }
                    }
                }
                assert forall|name: Seq<char>| with_name::<T>(now, name) == #[trigger] with_name::<T>(start, name) by {
                    assert(with_name::<T>(before, name) == with_name::<T>(start, name));
                }
            }
            j = j - 1;
        }
        proof {
            let now = list.deep_view();
            let front = now.subrange(0, i + 1);
            assert forall|p: int, q: int| 0 <= p < q < front.len() implies !text::precedes(
                T::name_in(#[trigger] front[q]),
                T::name_in(#[trigger] front[p]),
            ) by {
                assert(front[p] == now[p] && front[q] == now[q]);
                if q == j && text::precedes(T::name_in(now[q]), T::name_in(now[p])) {
                    if p < j - 1 {
                        let a = T::name_in(now[q]);
                        let b = T::name_in(now[p]);
                        let c = T::name_in(now[j - 1]);
                        assert(!text::precedes(T::name_in(now[j - 1]), T::name_in(now[p])));
                        if text::precedes(b, c) {
                            text::lemma_precedes_transitive(a, b, c);
                        } else {
                            text::lemma_precedes_total(b, c);
                        }
                    }
                }
            }
        }
        i = i + 1;
    }
    assert(list.deep_view().subrange(0, n as int) =~= list.deep_view());
}

/// What a filter keeps stands in the list and passes the test.
pub proof fn lemma_filter_from<A>(list: Seq<A>, p: spec_fn(A) -> bool, x: A)
    requires
        list.filter(p).contains(x),
    ensures
        list.contains(x),
        p(x),
    decreases list.len(),
{
    reveal(Seq::filter);
    if list.len() > 0 {
        let rest = list.drop_last().filter(p);
        if rest.contains(x) {
            lemma_filter_from(list.drop_last(), p, x);
            let k = choose|k: int| 0 <= k < list.len() - 1 && list.drop_last()[k] == x;
            assert(list[k] == x);
        } else {
            assert(list.last() == x);
        }
    }
}

proof fn lemma_filter_holds<A>(list: Seq<A>, p: spec_fn(A) -> bool, x: A)
    requires
        list.contains(x),
        p(x),
    ensures
        list.filter(p).contains(x),
{
    let k = choose|k: int| 0 <= k < list.len() && list[k] == x;
    list.lemma_filter_contains(p, k);
}

/// Sorting neither adds nor drops an element.
pub proof fn lemma_sorted_from_contains<T: Named>(a: Seq<T::V>, b: Seq<T::V>, item: T::V)
    requires
        sorted_from::<T>(a, b),
    ensures
        a.contains(item) <==> b.contains(item),
{
    let name = T::name_in(item);
    let p = is_named::<T>(name);
    assert(with_name::<T>(a, name) == a.filter(p));
    assert(with_name::<T>(b, name) == b.filter(p));
    if a.contains(item) {
        lemma_filter_holds(a, p, item);
        lemma_filter_from(b, p, item);
    }
    if b.contains(item) {
        lemma_filter_holds(b, p, item);
        lemma_filter_from(a, p, item);
    }
}

/// One more element of a list is one more that a filter keeps or drops.
pub proof fn lemma_filter_step<A>(list: Seq<A>, p: spec_fn(A) -> bool, k: int)
    requires
        0 <= k < list.len(),
    ensures
        list.subrange(0, k + 1).filter(p) == (if p(list[k]) {
            list.subrange(0, k).filter(p).push(list[k])
        } else {
            list.subrange(0, k).filter(p)
        }),
{
    reveal(Seq::filter);
    assert(list.subrange(0, k + 1).drop_last() =~= list.subrange(0, k));
}

/// Takes out every element of that name and says whether there was one.
pub fn remove_named<T: Named>(list: &mut Vec<T>, name: &str) -> (r: bool)
    ensures
        final(list).deep_view() == without_name::<T>(old(list).deep_view(), name@),
        r == has_name::<T>(old(list).deep_view(), name@),
{
    let ghost start = list.deep_view();
    let ghost p = is_not_named::<T>(name@);
    let ghost mut seen: int = 0;
    let mut removed = false;
    let mut i: usize = 0;
    proof {
        reveal(Seq::filter);
        assert(start.subrange(0, 0) =~= Seq::empty());
        assert(start.subrange(0, start.len() as int) =~= start);
        assert(start.subrange(0, 0).filter(p) + start.subrange(0, start.len() as int) =~= start);
    }
    while i < list.len()
        invariant
            start == old(list).deep_view(),
            p == is_not_named::<T>(name@),
            0 <= seen <= start.len(),
            i == start.subrange(0, seen).filter(p).len(),
            list.deep_view() == start.subrange(0, seen).filter(p) + start.subrange(seen, start.len() as int),
            removed == has_name::<T>(start.subrange(0, seen), name@),
        decreases list.len() - i,
    {
        let ghost before = list.deep_view();
        let ghost kept = start.subrange(0, seen).filter(p);
        proof {
            assert(before.len() == list.len());
            assert(before[i as int] == start[seen]);
            lemma_filter_step(start, p, seen);
            let now = start.subrange(0, seen + 1);
            assert(now[seen] == start[seen]);
            assert forall|j: int| 0 <= j < seen implies now[j] == start.subrange(0, seen)[j] by {}
            if has_name::<T>(start.subrange(0, seen), name@) {
                let j = choose|j: int|
                    0 <= j < seen && T::name_in(#[trigger] start.subrange(0, seen)[j]) == name@;
                assert(T::name_in(now[j]) == name@);
            }
            if has_name::<T>(now, name@) && T::name_in(start[seen]) != name@ {
                let j = choose|j: int| 0 <= j < seen + 1 && T::name_in(#[trigger] now[j]) == name@;
                assert(T::name_in(start.subrange(0, seen)[j]) == name@);
            }
        }
        if text::same(list[i].own_name(), name) {
            list.remove(i);
            removed = true;
            proof {
                assert(T::name_in(start.subrange(0, seen + 1)[seen]) == name@);
                assert(list.deep_view() =~= before.remove(i as int));
                assert(list.deep_view() =~= kept + start.subrange(seen + 1, start.len() as int));
            }
        } else {
            i = i + 1;
            proof {
                assert(list.deep_view() =~= kept.push(start[seen]) + start.subrange(seen + 1, start.len() as int));
            }
        }
        proof {
            seen = seen + 1;
        }
    }
    proof {
        assert(seen == start.len());
        assert(start.subrange(0, seen) =~= start);
        assert(list.deep_view() =~= start.filter(p));
    }
    removed
}

/// Puts strings in order and keeps one of each.
pub fn sort_distinct(list: &mut Vec<String>)
    ensures
        distinct_from(old(list).deep_view(), final(list).deep_view()),
{
    let ghost start = list.deep_view();
    sort_by_name(list);
    let ghost all = list.deep_view();
    proof {
        assert forall|s: Seq<char>| #[trigger] all.contains(s) <==> start.contains(s) by {
            lemma_sorted_from_contains::<String>(start, all, s);
        }
    }
    let mut i: usize = 1;
    while i < list.len()
        invariant
            1 <= i,
            i <= list.len() || list.len() == 0,
            sorted::<String>(list.deep_view()),
            forall|p: int, q: int|
                0 <= p < q < i && q < list.len() ==> text::precedes(
                    #[trigger] list.deep_view()[p],
                    #[trigger] list.deep_view()[q],
                ),
            forall|s: Seq<char>| #[trigger] list.deep_view().contains(s) <==> start.contains(s),
        decreases list.len() - i,
    {
        let ghost before = list.deep_view();
        if text::same(list[i].as_str(), list[i - 1].as_str()) {
            list.remove(i);
            proof {
                let now = list.deep_view();
                assert(now =~= before.remove(i as int));
                assert forall|p: int, q: int| 0 <= p < q < now.len() implies !text::precedes(
                    #[trigger] now[q],
                    #[trigger] now[p],
                ) by {
                    let p0 = if p < i { p } else { p + 1 };
                    let q0 = if q < i { q } else { q + 1 };
                    assert(now[p] == before[p0] && now[q] == before[q0]);
                }
                assert forall|s: Seq<char>| #[trigger] now.contains(s) <==> start.contains(s) by {
                    if before.contains(s) {
                        let k = choose|k: int| 0 <= k < before.len() && before[k] == s;
                        let k0 = if k < i { k } else if k == i { i - 1 } else { k - 1 };
                        assert(now[k0] == s);
                    }
                    if now.contains(s) {
                        let k = choose|k: int| 0 <= k < now.len() && now[k] == s;
                        let k0 = if k < i { k } else { k + 1 };
                        assert(before[k0] == s);
                    }
                }
            }
        } else {
            proof {
                assert forall|p: int| 0 <= p < i implies text::precedes(#[trigger] before[p], before[i as int]) by {
                    assert(!text::precedes(String::name_in(before[i as int]), String::name_in(before[i - 1])));
                    if !text::precedes(before[i - 1], before[i as int]) {
                        text::lemma_precedes_total(before[i - 1], before[i as int]);
                    }
                    if p < i - 1 {
                        text::lemma_precedes_transitive(before[p], before[i - 1], before[i as int]);
                    }
                }
            }
            i = i + 1;
        }
    }
}

/// `stem` with the number `k` behind it.
pub open spec fn numbered(stem: Seq<char>, k: nat) -> Seq<char> {
    stem + text::decimal(k)
}

/// `k` is the least number from 2 up for which no element is called `stem` and `k`.
pub open spec fn first_free<T: Named>(list: Seq<T::V>, stem: Seq<char>, k: nat) -> bool {
    &&& k >= 2
    &&& !has_name::<T>(list, numbered(stem, k))
    &&& forall|m: nat| 2 <= m < k ==> has_name::<T>(list, #[trigger] numbered(stem, m))
}

proof fn lemma_numbered_injective(stem: Seq<char>, a: nat, b: nat)
    requires
        numbered(stem, a) == numbered(stem, b),
    ensures
        a == b,
{
    let x = numbered(stem, a);
    let y = numbered(stem, b);
    assert(text::after(x, stem.len() as int) =~= text::decimal(a));
    assert(text::after(y, stem.len() as int) =~= text::decimal(b));
    text::lemma_decimal_injective(a, b);
}

/// Names from 2 up to `k` that are all taken need as many elements.
proof fn lemma_taken_bound<T: Named>(list: Seq<T::V>, stem: Seq<char>, k: nat)
    requires
        k >= 2,
        forall|m: nat| 2 <= m < k ==> has_name::<T>(list, #[trigger] numbered(stem, m)),
    ensures
        k - 2 <= list.len(),
{
    let place = |m: int|
        choose|i: int| 0 <= i < list.len() && T::name_in(#[trigger] list[i]) == numbered(stem, (m + 2) as nat);
    let places = Seq::new((k - 2) as nat, place);
    assert forall|m: int| 0 <= m < places.len() implies 0 <= #[trigger] places[m] < list.len()
        && T::name_in(list[places[m]]) == numbered(stem, (m + 2) as nat) by {
        assert(has_name::<T>(list, numbered(stem, (m + 2) as nat)));
    }
    assert(places.no_duplicates()) by {
        assert forall|a: int, b: int| 0 <= a < places.len() && 0 <= b < places.len() && a != b implies places[a]
            != places[b] by {
            if places[a] == places[b] {
                lemma_numbered_injective(stem, (a + 2) as nat, (b + 2) as nat);
            }
        }
    }
    places.unique_seq_to_set();
    vstd::set_lib::lemma_int_range(0, list.len() as int);
    let all = vstd::set_lib::set_int_range(0, list.len() as int);
    assert(places.to_set().subset_of(all)) by {
        assert forall|x: int| places.to_set().contains(x) implies all.contains(x) by {
            let m = choose|m: int| 0 <= m < places.len() && places[m] == x;
            assert(0 <= places[m] < list.len());
        }
    }
    vstd::set_lib::lemma_len_subset(places.to_set(), all);
}

/// `usual` where no element has that name, else the first free numbered name.
pub fn fresh_name<T: Named>(list: &Vec<T>, usual: &str, stem: &str) -> (r: String)
    ensures
        !has_name::<T>(list.deep_view(), usual@) ==> r@ == usual@,
        has_name::<T>(list.deep_view(), usual@) ==> exists|k: nat|
            r@ == numbered(stem@, k) && #[trigger] first_free::<T>(list.deep_view(), stem@, k),
{
    if position(list, usual).is_none() {
        return usual.to_owned();
    }
    let mut k: u128 = 2;
    loop
        invariant
            k >= 2,
            k - 2 <= list.len(),
            has_name::<T>(list.deep_view(), usual@),
            forall|m: nat| 2 <= m < k ==> has_name::<T>(list.deep_view(), #[trigger] numbered(stem@, m)),
        decreases list.len() + 3 - k,
    {
        let mut name = stem.to_owned();
        name.append(text::decimal_text(k).as_str());
        assert(name@ == numbered(stem@, k as nat));
        if position(list, name.as_str()).is_none() {
            assert(first_free::<T>(list.deep_view(), stem@, k as nat));
            return name;
        }
        proof {
            lemma_taken_bound::<T>(list.deep_view(), stem@, (k + 1) as nat);
        }
        k = k + 1;
    }
}

/// Place `i` holds the first element of that name.
pub open spec fn first_named<T: Named>(list: Seq<T::V>, name: Seq<char>, i: int) -> bool {
    &&& 0 <= i < list.len()
    &&& T::name_in(list[i]) == name
    &&& !has_name::<T>(list.subrange(0, i), name)
}

/// `b` is `a` with `item` in it: in the place of the first element of the same name, or, where
/// there is none, as one more element of a list that is then in order.
pub open spec fn upserted<T: Named>(a: Seq<T::V>, item: T::V, b: Seq<T::V>) -> bool {
    if has_name::<T>(a, T::name_in(item)) {
        exists|i: int| #[trigger] first_named::<T>(a, T::name_in(item), i) && b == a.update(i, item)
    } else {
        sorted_from::<T>(a.push(item), b)
    }
}

/// Puts an element in the place of the first one of its name, or adds it and sorts the list.
pub fn upsert<T: Named>(list: &mut Vec<T>, item: T)
    ensures
        upserted::<T>(old(list).deep_view(), item.deep_view(), final(list).deep_view()),
{
    let ghost start = list.deep_view();
    match position(list, item.own_name()) {
        Some(i) => {
            proof {
                assert(first_named::<T>(start, T::name_in(item.deep_view()), i as int));
            }
            list.set(i, item);
            assert(list.deep_view() =~= start.update(i as int, item.deep_view()));
        },
        None => {
            put(list, item);
            sort_by_name(list);
        },
    }
}

/// No two elements have one name.
pub open spec fn unique<T: Named>(list: Seq<T::V>) -> bool {
    forall|i: int, j: int|
        0 <= i < j < list.len() ==> T::name_in(#[trigger] list[i]) != T::name_in(#[trigger] list[j])
}

proof fn lemma_unique_class<T: Named>(list: Seq<T::V>, name: Seq<char>)
    requires
        unique::<T>(list),
    ensures
        with_name::<T>(list, name).len() <= 1,
    decreases list.len(),
{
    reveal(Seq::filter);
    if list.len() > 0 {
        let front = list.drop_last();
        lemma_unique_class::<T>(front, name);
        if with_name::<T>(front, name).len() > 0 && T::name_in(list.last()) == name {
            let x = with_name::<T>(front, name)[0];
            assert(with_name::<T>(front, name).contains(x));
            lemma_filter_from(front, is_named::<T>(name), x);
            let k = choose|k: int| 0 <= k < front.len() && front[k] == x;
            assert(list[k] == x && k < list.len() - 1);
            assert(T::name_in(list[k]) != T::name_in(list[list.len() - 1]));
        }
    }
}

proof fn lemma_two_in_class<T: Named>(list: Seq<T::V>, name: Seq<char>, i: int, j: int)
    requires
        0 <= i < j < list.len(),
        T::name_in(list[i]) == name,
        T::name_in(list[j]) == name,
    ensures
        with_name::<T>(list, name).len() >= 2,
    decreases list.len(),
{
    reveal(Seq::filter);
    let front = list.drop_last();
    if j < list.len() - 1 {
        lemma_two_in_class::<T>(front, name, i, j);
    } else {
        lemma_filter_holds(front, is_named::<T>(name), front[i]);
    }
}

/// Sorting keeps names unique.
pub proof fn lemma_sorted_from_unique<T: Named>(a: Seq<T::V>, b: Seq<T::V>)
    requires
        sorted_from::<T>(a, b),
        unique::<T>(a),
    ensures
        unique::<T>(b),
{
    assert forall|i: int, j: int| 0 <= i < j < b.len() implies T::name_in(#[trigger] b[i]) != T::name_in(
        #[trigger] b[j],
    ) by {
        if T::name_in(b[i]) == T::name_in(b[j]) {
            lemma_two_in_class::<T>(b, T::name_in(b[i]), i, j);
            lemma_unique_class::<T>(a, T::name_in(b[i]));
            assert(with_name::<T>(b, T::name_in(b[i])) == with_name::<T>(a, T::name_in(b[i])));
        }
    }
}

/// A list of unique names in order stays one when an element is put in.
pub proof fn lemma_upsert_keeps_order<T: Named>(a: Seq<T::V>, item: T::V, b: Seq<T::V>)
    requires
        upserted::<T>(a, item, b),
        sorted::<T>(a),
        unique::<T>(a),
    ensures
        sorted::<T>(b),
        unique::<T>(b),
{
    let name = T::name_in(item);
    if has_name::<T>(a, name) {
        let i = choose|i: int| #[trigger] first_named::<T>(a, name, i) && b == a.update(i, item);
        assert forall|p: int, q: int| 0 <= p < q < b.len() implies !text::precedes(
            T::name_in(#[trigger] b[q]),
            T::name_in(#[trigger] b[p]),
        ) by {
            assert(T::name_in(b[p]) == T::name_in(a[p]) && T::name_in(b[q]) == T::name_in(a[q]));
        }
        assert forall|p: int, q: int| 0 <= p < q < b.len() implies T::name_in(#[trigger] b[p]) != T::name_in(
            #[trigger] b[q],
        ) by {
            assert(T::name_in(b[p]) == T::name_in(a[p]) && T::name_in(b[q]) == T::name_in(a[q]));
        }
    } else {
        let c = a.push(item);
        assert(unique::<T>(c)) by {
            assert forall|p: int, q: int| 0 <= p < q < c.len() implies T::name_in(#[trigger] c[p]) != T::name_in(
                #[trigger] c[q],
            ) by {
                assert(c[p] == a[p]);
            }
        }
        lemma_sorted_from_unique::<T>(c, b);
    }
}

/// Once an element is put in, the first element of its name is that element.
pub proof fn lemma_upsert_then_first<T: Named>(a: Seq<T::V>, item: T::V, b: Seq<T::V>)
    requires
        upserted::<T>(a, item, b),
    ensures
        exists|i: int| #[trigger] first_named::<T>(b, T::name_in(item), i) && b[i] == item,
{
    let name = T::name_in(item);
    if has_name::<T>(a, name) {
        let i = choose|i: int| #[trigger] first_named::<T>(a, name, i) && b == a.update(i, item);
        assert(b.subrange(0, i) =~= a.subrange(0, i));
        assert(first_named::<T>(b, name, i) && b[i] == item);
    } else {
        let c = a.push(item);
        assert(c[c.len() - 1] == item);
        lemma_sorted_from_contains::<T>(c, b, item);
        let i = choose|i: int| 0 <= i < b.len() && b[i] == item;
        if has_name::<T>(b.subrange(0, i), name) {
            let j = choose|j: int| 0 <= j < i && T::name_in(#[trigger] b.subrange(0, i)[j]) == name;
            assert(b[j] == b.subrange(0, i)[j]);
            lemma_two_in_class::<T>(b, name, j, i);
            assert(with_name::<T>(c, name) == with_name::<T>(b, name));
            lemma_absent_class::<T>(a, name);
            reveal(Seq::filter);
            assert(c.drop_last() =~= a);
        }
        assert(first_named::<T>(b, name, i) && b[i] == item);
    }
}

proof fn lemma_absent_class<T: Named>(list: Seq<T::V>, name: Seq<char>)
    requires
        !has_name::<T>(list, name),
    ensures
        with_name::<T>(list, name).len() == 0,
{
    if with_name::<T>(list, name).len() > 0 {
        let x = with_name::<T>(list, name)[0];
        assert(with_name::<T>(list, name).contains(x));
        lemma_filter_from(list, is_named::<T>(name), x);
        let k = choose|k: int| 0 <= k < list.len() && list[k] == x;
        assert(T::name_in(list[k]) == name);
    }
}

/// Once every element of a name is taken out, none has that name.
pub proof fn lemma_removed_name_is_absent<T: Named>(list: Seq<T::V>, name: Seq<char>)
    ensures
        !has_name::<T>(without_name::<T>(list, name), name),
{
    let rest = without_name::<T>(list, name);
    if has_name::<T>(rest, name) {
        let i = choose|i: int| 0 <= i < rest.len() && T::name_in(#[trigger] rest[i]) == name;
        assert(rest.contains(rest[i]));
        lemma_filter_from(list, is_not_named::<T>(name), rest[i]);
    }
}

/// Taking out one name keeps every element of another name, and their order.
pub proof fn lemma_removal_keeps_others<T: Named>(list: Seq<T::V>, name: Seq<char>, other: Seq<char>)
    requires
        name != other,
    ensures
        with_name::<T>(without_name::<T>(list, name), other) == with_name::<T>(list, other),
    decreases list.len(),
{
    reveal(Seq::filter);
    if list.len() > 0 {
        let front = list.drop_last();
        let x = list.last();
        lemma_removal_keeps_others::<T>(front, name, other);
        if T::name_in(x) != name {
            assert(without_name::<T>(list, name).drop_last() =~= without_name::<T>(front, name));
        }
    }
}

/// Two ascending lists of the same strings are one list: what `distinct_from` asks for is one
/// result only.
pub proof fn lemma_distinct_is_one_list(a: Seq<Seq<char>>, b: Seq<Seq<char>>, c: Seq<Seq<char>>)
    requires
        distinct_from(a, b),
        distinct_from(a, c),
    ensures
        b == c,
{
    assert forall|s: Seq<char>| b.contains(s) <==> #[trigger] c.contains(s) by {
        assert(b.contains(s) <==> a.contains(s));
    }
    lemma_ascending_is_one_list(b, c);
}

proof fn lemma_ascending_is_one_list(b: Seq<Seq<char>>, c: Seq<Seq<char>>)
    requires
        ascending(b),
        ascending(c),
        forall|s: Seq<char>| b.contains(s) <==> #[trigger] c.contains(s),
    ensures
        b == c,
    decreases b.len(),
{
    if b.len() == 0 {
        if c.len() > 0 {
            assert(c.contains(c[0]));
        }
        assert(b =~= c);
    } else {
        assert(b.contains(b[0]));
        assert(c.contains(b[0]));
        let j = choose|j: int| 0 <= j < c.len() && c[j] == b[0];
        assert(c.contains(c[0]));
        let i = choose|i: int| 0 <= i < b.len() && b[i] == c[0];
        if b[0] != c[0] {
            assert(text::precedes(c[0], c[j]));
            assert(text::precedes(b[0], b[i]));
            text::lemma_precedes_transitive(b[0], c[0], b[0]);
            text::lemma_precedes_irreflexive(b[0]);
        }
        let x = b.drop_first();
        let y = c.drop_first();
        assert forall|s: Seq<char>| x.contains(s) <==> #[trigger] y.contains(s) by {
            text::lemma_precedes_irreflexive(b[0]);
            if x.contains(s) {
                let k = choose|k: int| 0 <= k < x.len() && x[k] == s;
                assert(b[k + 1] == s && text::precedes(b[0], b[k + 1]));
                assert(c.contains(s));
                let m = choose|m: int| 0 <= m < c.len() && c[m] == s;
                assert(y[m - 1] == s);
            }
            if y.contains(s) {
                let k = choose|k: int| 0 <= k < y.len() && y[k] == s;
                assert(c[k + 1] == s && text::precedes(c[0], c[k + 1]));
                assert(c.contains(s));
                assert(b.contains(s));
                let m = choose|m: int| 0 <= m < b.len() && b[m] == s;
                assert(x[m - 1] == s);
            }
        }
        assert forall|p: int, q: int| 0 <= p < q < x.len() implies text::precedes(#[trigger] x[p], #[trigger] x[q]) by {
            assert(x[p] == b[p + 1] && x[q] == b[q + 1]);
        }
        assert forall|p: int, q: int| 0 <= p < q < y.len() implies text::precedes(#[trigger] y[p], #[trigger] y[q]) by {
            assert(y[p] == c[p + 1] && y[q] == c[q + 1]);
        }
        lemma_ascending_is_one_list(x, y);
        assert(b =~= seq![b[0]] + x);
        assert(c =~= seq![c[0]] + y);
    }
}

/// There is one way only to put a list into the order of its names: what `sorted_from` asks for is
/// one result.
pub proof fn lemma_sorting_has_one_result<T: Named>(a: Seq<T::V>, b: Seq<T::V>, c: Seq<T::V>)
    requires
        sorted_from::<T>(a, b),
        sorted_from::<T>(a, c),
    ensures
        b == c,
{
    assert forall|name: Seq<char>| with_name::<T>(b, name) == #[trigger] with_name::<T>(c, name) by {
        assert(with_name::<T>(b, name) == with_name::<T>(a, name));
    }
    lemma_sorted_is_one_list::<T>(b, c);
}

proof fn lemma_last_with_name<T: Named>(list: Seq<T::V>, name: Seq<char>)
    requires
        list.len() > 0,
    ensures
        with_name::<T>(list, name) == (if T::name_in(list.last()) == name {
            with_name::<T>(list.drop_last(), name).push(list.last())
        } else {
            with_name::<T>(list.drop_last(), name)
        }),
{
    reveal(Seq::filter);
}

proof fn lemma_last_is_greatest<T: Named>(b: Seq<T::V>, c: Seq<T::V>)
    requires
        sorted::<T>(c),
        b.len() > 0,
        c.len() > 0,
        with_name::<T>(b, T::name_in(b.last())) == with_name::<T>(c, T::name_in(b.last())),
    ensures
        !text::precedes(T::name_in(c.last()), T::name_in(b.last())),
{
    let n = T::name_in(b.last());
    lemma_last_with_name::<T>(b, n);
    let x = with_name::<T>(c, n);
    assert(x.last() == b.last());
    assert(x.contains(b.last()));
    lemma_filter_from(c, is_named::<T>(n), b.last());
    let k = choose|k: int| 0 <= k < c.len() && c[k] == b.last();
    if k == c.len() - 1 {
        text::lemma_precedes_irreflexive(n);
    } else {
        assert(!text::precedes(T::name_in(c[c.len() - 1]), T::name_in(c[k])));
    }
}

proof fn lemma_sorted_is_one_list<T: Named>(b: Seq<T::V>, c: Seq<T::V>)
    requires
        sorted::<T>(b),
        sorted::<T>(c),
        forall|name: Seq<char>| with_name::<T>(b, name) == #[trigger] with_name::<T>(c, name),
    ensures
        b == c,
    decreases b.len(),
{
    reveal(Seq::filter);
    if b.len() == 0 {
        if c.len() > 0 {
            let n = T::name_in(c.last());
            lemma_last_with_name::<T>(c, n);
            assert(with_name::<T>(b, n).len() == 0);
            assert(with_name::<T>(b, n) == with_name::<T>(c, n));
        }
        assert(b =~= c);
    } else if c.len() == 0 {
        let n = T::name_in(b.last());
        lemma_last_with_name::<T>(b, n);
        assert(with_name::<T>(c, n).len() == 0);
        assert(with_name::<T>(b, n) == with_name::<T>(c, n));
    } else {
        let n = T::name_in(b.last());
        let m = T::name_in(c.last());
        assert(with_name::<T>(b, n) == with_name::<T>(c, n));
        assert(with_name::<T>(b, m) == with_name::<T>(c, m));
        lemma_last_is_greatest::<T>(b, c);
        lemma_last_is_greatest::<T>(c, b);
        text::lemma_precedes_total(n, m);
        lemma_last_with_name::<T>(b, n);
        lemma_last_with_name::<T>(c, n);
        let x = b.drop_last();
        let y = c.drop_last();
        assert(b.last() == with_name::<T>(b, n).last());
        assert(c.last() == with_name::<T>(c, n).last());
        assert forall|name: Seq<char>| with_name::<T>(x, name) == #[trigger] with_name::<T>(y, name) by {
            lemma_last_with_name::<T>(b, name);
            lemma_last_with_name::<T>(c, name);
            assert(with_name::<T>(b, name) == with_name::<T>(c, name));
            if name == n {
                assert(with_name::<T>(x, name) =~= with_name::<T>(b, name).drop_last());
                assert(with_name::<T>(y, name) =~= with_name::<T>(c, name).drop_last());
            }
        }
        assert forall|i: int, j: int| 0 <= i < j < x.len() implies !text::precedes(
            T::name_in(#[trigger] x[j]),
            T::name_in(#[trigger] x[i]),
        ) by {
            assert(x[j] == b[j] && x[i] == b[i]);
        }
        assert forall|i: int, j: int| 0 <= i < j < y.len() implies !text::precedes(
            T::name_in(#[trigger] y[j]),
            T::name_in(#[trigger] y[i]),
        ) by {
            assert(y[j] == c[j] && y[i] == c[i]);
        }
        lemma_sorted_is_one_list::<T>(x, y);
        assert(b =~= x.push(b.last()));
        assert(c =~= y.push(c.last()));
    }
}

proof fn lemma_update_keeps_class<T: Named>(list: Seq<T::V>, i: int, item: T::V, other: Seq<char>)
    requires
        0 <= i < list.len(),
        T::name_in(list[i]) != other,
        T::name_in(item) != other,
    ensures
        with_name::<T>(list.update(i, item), other) == with_name::<T>(list, other),
    decreases list.len(),
{
    reveal(Seq::filter);
    let front = list.drop_last();
    let b = list.update(i, item);
    if i < list.len() - 1 {
        lemma_update_keeps_class::<T>(front, i, item, other);
        assert(b.drop_last() =~= front.update(i, item));
    } else {
        assert(b.drop_last() =~= front);
    }
}

/// Putting an element in keeps every element of another name, and their order.
pub proof fn lemma_upsert_keeps_others<T: Named>(a: Seq<T::V>, item: T::V, b: Seq<T::V>, other: Seq<char>)
    requires
        upserted::<T>(a, item, b),
        other != T::name_in(item),
    ensures
        with_name::<T>(b, other) == with_name::<T>(a, other),
{
    let name = T::name_in(item);
    if has_name::<T>(a, name) {
        let i = choose|i: int| #[trigger] first_named::<T>(a, name, i) && b == a.update(i, item);
        lemma_update_keeps_class::<T>(a, i, item, other);
    } else {
        let c = a.push(item);
        assert(with_name::<T>(b, other) == with_name::<T>(c, other));
        lemma_last_with_name::<T>(c, other);
        assert(c.drop_last() =~= a);
    }
}

proof fn lemma_parts_of_list<T: Named>(list: Seq<T::V>, name: Seq<char>)
    ensures
        list.len() == with_name::<T>(list, name).len() + without_name::<T>(list, name).len(),
    decreases list.len(),
{
    reveal(Seq::filter);
    if list.len() > 0 {
        lemma_parts_of_list::<T>(list.drop_last(), name);
    }
}

/// Lists that have the same elements of every name are equally long.
proof fn lemma_same_classes_same_length<T: Named>(a: Seq<T::V>, b: Seq<T::V>)
    requires
        forall|name: Seq<char>| with_name::<T>(b, name) == #[trigger] with_name::<T>(a, name),
    ensures
        a.len() == b.len(),
    decreases a.len(),
{
    reveal(Seq::filter);
    if a.len() == 0 {
        if b.len() > 0 {
            let n = T::name_in(b.last());
            lemma_last_with_name::<T>(b, n);
            assert(with_name::<T>(b, n) == with_name::<T>(a, n));
        }
    } else {
        let n = T::name_in(a.last());
        let x = without_name::<T>(a, n);
        let y = without_name::<T>(b, n);
        lemma_last_with_name::<T>(a, n);
        lemma_parts_of_list::<T>(a, n);
        lemma_parts_of_list::<T>(b, n);
        assert forall|name: Seq<char>| with_name::<T>(y, name) == #[trigger] with_name::<T>(x, name) by {
            if name == n {
                lemma_removed_name_is_absent::<T>(a, n);
                lemma_removed_name_is_absent::<T>(b, n);
                lemma_has_name_is_a_class::<T>(x, n);
                lemma_has_name_is_a_class::<T>(y, n);
                assert(with_name::<T>(y, n) =~= with_name::<T>(x, n));
            } else {
                lemma_removal_keeps_others::<T>(a, n, name);
                lemma_removal_keeps_others::<T>(b, n, name);
                assert(with_name::<T>(b, name) == with_name::<T>(a, name));
            }
        }
        lemma_same_classes_same_length::<T>(x, y);
        assert(with_name::<T>(b, n) == with_name::<T>(a, n));
    }
}

/// Sorting keeps the length of a list.
pub proof fn lemma_sorting_keeps_length<T: Named>(a: Seq<T::V>, b: Seq<T::V>)
    requires
        sorted_from::<T>(a, b),
    ensures
        b.len() == a.len(),
{
    lemma_same_classes_same_length::<T>(a, b);
}

/// Putting an element in keeps the length of a list that has its name, and lets any other one grow
/// by one.
pub proof fn lemma_upsert_adds_at_most_one<T: Named>(a: Seq<T::V>, item: T::V, b: Seq<T::V>)
    requires
        upserted::<T>(a, item, b),
    ensures
        b.len() == a.len() + if has_name::<T>(a, T::name_in(item)) { 0int } else { 1 },
{
    if !has_name::<T>(a, T::name_in(item)) {
        lemma_sorting_keeps_length::<T>(a.push(item), b);
    }
}

/// There is one way only to put an element in.
pub proof fn lemma_upsert_has_one_result<T: Named>(a: Seq<T::V>, item: T::V, b: Seq<T::V>, c: Seq<T::V>)
    requires
        upserted::<T>(a, item, b),
        upserted::<T>(a, item, c),
    ensures
        b == c,
{
    let name = T::name_in(item);
    if has_name::<T>(a, name) {
        let i = choose|i: int| #[trigger] first_named::<T>(a, name, i) && b == a.update(i, item);
        let j = choose|j: int| #[trigger] first_named::<T>(a, name, j) && c == a.update(j, item);
        lemma_first_is_one_place::<T>(a, name, i, j);
    } else {
        lemma_sorting_has_one_result::<T>(a.push(item), b, c);
    }
}

/// A name has one first place only.
pub proof fn lemma_first_is_one_place<T: Named>(list: Seq<T::V>, name: Seq<char>, i: int, j: int)
    requires
        first_named::<T>(list, name, i),
        first_named::<T>(list, name, j),
    ensures
        i == j,
{
    if i < j {
        assert(list.subrange(0, j)[i] == list[i]);
        assert(has_name::<T>(list.subrange(0, j), name));
    }
    if j < i {
        assert(list.subrange(0, i)[j] == list[j]);
        assert(has_name::<T>(list.subrange(0, i), name));
    }
}

/// A list of unique names in order stays one when a name is taken out.
pub proof fn lemma_removal_keeps_order<T: Named>(list: Seq<T::V>, name: Seq<char>)
    requires
        sorted::<T>(list),
        unique::<T>(list),
    ensures
        sorted::<T>(without_name::<T>(list, name)),
        unique::<T>(without_name::<T>(list, name)),
    decreases list.len(),
{
    reveal(Seq::filter);
    if list.len() > 0 {
        let front = list.drop_last();
        let p = is_not_named::<T>(name);
        assert forall|i: int, j: int| 0 <= i < j < front.len() implies !text::precedes(
            T::name_in(#[trigger] front[j]),
            T::name_in(#[trigger] front[i]),
        ) by {
            assert(front[j] == list[j] && front[i] == list[i]);
        }
        assert forall|i: int, j: int| 0 <= i < j < front.len() implies T::name_in(#[trigger] front[i]) != T::name_in(
            #[trigger] front[j],
        ) by {
            assert(front[j] == list[j] && front[i] == list[i]);
        }
        lemma_removal_keeps_order::<T>(front, name);
        let before = without_name::<T>(front, name);
        let rest = without_name::<T>(list, name);
        assert forall|i: int, j: int| 0 <= i < j < rest.len() implies !text::precedes(
            T::name_in(#[trigger] rest[j]),
            T::name_in(#[trigger] rest[i]),
        ) && T::name_in(rest[i]) != T::name_in(rest[j]) by {
            assert(rest[i] == before[i]);
            if j < before.len() {
                assert(rest[j] == before[j]);
            } else {
                assert(before.contains(before[i]));
                lemma_filter_from(front, p, before[i]);
                let k = choose|k: int| 0 <= k < front.len() && front[k] == before[i];
                assert(list[k] == before[i]);
                assert(rest[j] == list[list.len() - 1]);
            }
        }
    }
}

/// A name occurs where some element has it.
pub proof fn lemma_has_name_is_a_class<T: Named>(list: Seq<T::V>, name: Seq<char>)
    ensures
        has_name::<T>(list, name) <==> with_name::<T>(list, name).len() > 0,
{
    if has_name::<T>(list, name) {
        let i = choose|i: int| 0 <= i < list.len() && T::name_in(#[trigger] list[i]) == name;
        lemma_filter_holds(list, is_named::<T>(name), list[i]);
    } else {
        lemma_absent_class::<T>(list, name);
    }
}

/// The first free number is at most two more than the length of the list.
pub proof fn lemma_first_free_is_near<T: Named>(list: Seq<T::V>, stem: Seq<char>, k: nat)
    requires
        first_free::<T>(list, stem, k),
    ensures
        k <= list.len() + 2,
{
    lemma_taken_bound::<T>(list, stem, k);
}

} // verus!
