//! Sequences of issues as the contracts speak of them, and lookups by id.
use vstd::prelude::*;
use crate::issues::{Issue, IssueView};

verus! {

/// Views of a list of issues.
pub open spec fn views(s: Seq<Issue>) -> Seq<IssueView> {
    s.map_values(|i: Issue| i@)
}

pub proof fn lemma_views_push(s: Seq<Issue>, x: Issue)
    ensures
        views(s.push(x)) == views(s).push(x@),
{
    assert(views(s.push(x)) =~= views(s).push(x@));
}

pub proof fn lemma_views_add(a: Seq<Issue>, b: Seq<Issue>)
    ensures
        views(a + b) == views(a) + views(b),
{
    assert(views(a + b) =~= views(a) + views(b));
}

pub proof fn lemma_views_empty()
    ensures
        views(Seq::<Issue>::empty()) == Seq::<IssueView>::empty(),
{
    assert(views(Seq::<Issue>::empty()) =~= Seq::<IssueView>::empty());
}

/// What `f` gives for each item of `s`, in order, one after the other.
pub open spec fn gather<T, U>(s: Seq<T>, f: spec_fn(T) -> Seq<U>) -> Seq<U>
    decreases s.len(),
{
    if s.len() == 0 {
        Seq::empty()
    } else {
        gather(s.drop_last(), f) + f(s.last())
    }
}

pub proof fn lemma_gather_push<T, U>(s: Seq<T>, x: T, f: spec_fn(T) -> Seq<U>)
    ensures
        gather(s.push(x), f) == gather(s, f) + f(x),
{
    assert(s.push(x).drop_last() =~= s);
}

/// One step of gathering along a list: from the first `i` items to the first `i + 1`.
pub proof fn lemma_gather_step<T, U>(s: Seq<T>, i: int, f: spec_fn(T) -> Seq<U>)
    requires
        0 <= i < s.len(),
    ensures
        gather(s.take(i + 1), f) == gather(s.take(i), f) + f(s[i]),
{
    assert(s.take(i + 1).drop_last() =~= s.take(i));
}

/// Every item gathered comes from some item of the list.
pub proof fn lemma_gather_member<T, U>(s: Seq<T>, f: spec_fn(T) -> Seq<U>, k: int) -> (w: (int, int))
    requires
        0 <= k < gather(s, f).len(),
    ensures
        0 <= w.0 < s.len(),
        0 <= w.1 < f(s[w.0]).len(),
        gather(s, f)[k] == f(s[w.0])[w.1],
    decreases s.len(),
{
    let front = gather(s.drop_last(), f);
    if k < front.len() {
        let w = lemma_gather_member(s.drop_last(), f, k);
        w
    } else {
        (s.len() - 1, k - front.len())
    }
}

/// Whether `i` is the first place of `id` in the list.
pub open spec fn is_first_place(ids: Seq<Seq<char>>, id: Seq<char>, i: int) -> bool {
    &&& 0 <= i < ids.len()
    &&& ids[i] == id
    &&& forall|j: int| 0 <= j < i ==> #[trigger] ids[j] != id
}

/// The first place of `id` in the list, if it is there.
pub open spec fn position_of(ids: Seq<Seq<char>>, id: Seq<char>) -> Option<int> {
    if exists|i: int| is_first_place(ids, id, i) {
        Some(choose|i: int| is_first_place(ids, id, i))
    } else {
        None
    }
}

pub proof fn lemma_position_found(ids: Seq<Seq<char>>, id: Seq<char>, i: int)
    requires
        is_first_place(ids, id, i),
    ensures
        position_of(ids, id) == Some(i),
{
    let c = choose|c: int| is_first_place(ids, id, c);
    if c < i {
        assert(ids[c] != id);
    } else if i < c {
        assert(ids[i] != id);
    }
}

pub proof fn lemma_position_absent(ids: Seq<Seq<char>>, id: Seq<char>)
    requires
        forall|j: int| 0 <= j < ids.len() ==> #[trigger] ids[j] != id,
    ensures
        position_of(ids, id) is None,
{
    if exists|i: int| is_first_place(ids, id, i) {
        let c = choose|c: int| is_first_place(ids, id, c);
        assert(ids[c] != id);
    }
}

/// What a found position says: the id stands there, and nowhere before.
pub proof fn lemma_position_is_first(ids: Seq<Seq<char>>, id: Seq<char>)
    ensures
        match position_of(ids, id) {
            Some(i) => is_first_place(ids, id, i),
            None => forall|j: int| 0 <= j < ids.len() ==> #[trigger] ids[j] != id,
        },
{
    if !exists|i: int| is_first_place(ids, id, i) {
        assert forall|j: int| 0 <= j < ids.len() implies #[trigger] ids[j] != id by {
            if ids[j] == id {
                lemma_some_first_place(ids, id, j);
            }
        }
    }
}

proof fn lemma_some_first_place(ids: Seq<Seq<char>>, id: Seq<char>, j: int)
    requires
        0 <= j < ids.len(),
        ids[j] == id,
    ensures
        exists|i: int| is_first_place(ids, id, i),
    decreases j,
{
    if forall|k: int| 0 <= k < j ==> #[trigger] ids[k] != id {
        assert(is_first_place(ids, id, j));
    } else {
        let k = choose|k: int| 0 <= k < j && #[trigger] ids[k] == id;
        lemma_some_first_place(ids, id, k);
    }
}

/// A prefix of a list with the next item is the next prefix.
pub proof fn lemma_take_push<A>(s: Seq<A>, t: Seq<A>, i: int, x: A)
    requires
        0 <= i < t.len(),
        s == t.take(i),
        x == t[i],
    ensures
        s.push(x) == t.take(i + 1),
{
    assert(s.push(x) =~= t.take(i + 1));
}

pub proof fn lemma_texts_push(v: Seq<String>, x: String)
    ensures
        crate::issues::texts(v.push(x)) == crate::issues::texts(v).push(x@),
{
    assert(crate::issues::texts(v.push(x)) =~= crate::issues::texts(v).push(x@));
}

/// The issue, if there is one, as a list.
pub open spec fn one(o: Option<IssueView>) -> Seq<IssueView> {
    match o {
        Some(i) => seq![i],
        None => Seq::empty(),
    }
}

/// Puts the issue, if there is one, at the end of `out`.
pub fn push_one(out: &mut Vec<Issue>, o: Option<Issue>)
    ensures
        views(final(out)@) == views(old(out)@) + one(
            match o {
                Some(i) => Some(i@),
                None => None,
            },
        ),
{
    match o {
        Some(i) => {
            out.push(i);
            assert(views(out@) =~= views(old(out)@) + seq![i@]);
        },
        None => {
            assert(views(out@) =~= views(old(out)@) + Seq::<IssueView>::empty());
        },
    }
}

/// View of the issue, if there is one.
pub open spec fn shown(o: Option<Issue>) -> Option<IssueView> {
    match o {
        Some(i) => Some(i@),
        None => None,
    }
}

/// The issues that `check` finds on the items, item by item.
pub(crate) fn collect<T, F: Fn(&T) -> Option<Issue>>(items: &Vec<T>, check: F, Ghost(found): Ghost<spec_fn(T) -> Seq<IssueView>>) -> (r: Vec<Issue>)
    requires
        forall|x: &T| #[trigger] check.requires((x,)),
        forall|x: &T, o: Option<Issue>| #[trigger] check.ensures((x,), o) ==> one(shown(o)) == found(*x),
    ensures
        views(r@) == gather(items@, found),
{
    let mut out: Vec<Issue> = Vec::new();
    proof {
        lemma_views_empty();
        assert(items@.take(0) =~= Seq::empty());
    }
    let mut i: usize = 0;
    while i < items.len()
        invariant
            i <= items@.len(),
            views(out@) == gather(items@.take(i as int), found),
            forall|x: &T| #[trigger] check.requires((x,)),
            forall|x: &T, o: Option<Issue>| #[trigger] check.ensures((x,), o) ==> one(shown(o)) == found(*x),
        decreases items@.len() - i,
    {
        proof {
            lemma_gather_step(items@, i as int, found);
        }
        let o = check(&items[i]);
        push_one(&mut out, o);
        i += 1;
    }
    assert(items@.take(i as int) =~= items@);
    out
}

/// The issues that `check` finds on the items, item by item, where the
/// check reads something more than the item.
pub(crate) fn collect_with<C, T, F: Fn(&C, &T) -> Option<Issue>>(context: &C, items: &Vec<T>, check: F, Ghost(found): Ghost<spec_fn(T) -> Seq<IssueView>>) -> (r: Vec<Issue>)
    requires
        forall|x: &T| #[trigger] check.requires((context, x)),
        forall|x: &T, o: Option<Issue>| #[trigger] check.ensures((context, x), o) ==> one(shown(o)) == found(*x),
    ensures
        views(r@) == gather(items@, found),
{
    let mut out: Vec<Issue> = Vec::new();
    proof {
        lemma_views_empty();
        assert(items@.take(0) =~= Seq::empty());
    }
    let mut i: usize = 0;
    while i < items.len()
        invariant
            i <= items@.len(),
            views(out@) == gather(items@.take(i as int), found),
            forall|x: &T| #[trigger] check.requires((context, x)),
            forall|x: &T, o: Option<Issue>| #[trigger] check.ensures((context, x), o) ==> one(shown(o)) == found(*x),
        decreases items@.len() - i,
    {
        proof {
            lemma_gather_step(items@, i as int, found);
        }
        let o = check(context, &items[i]);
        push_one(&mut out, o);
        i += 1;
    }
    assert(items@.take(i as int) =~= items@);
    out
}

/// Whether `i` is the first place in the list where `p` holds.
pub open spec fn is_first_where<T>(s: Seq<T>, p: spec_fn(T) -> bool, i: int) -> bool {
    &&& 0 <= i < s.len()
    &&& p(s[i])
    &&& forall|j: int| 0 <= j < i ==> !p(#[trigger] s[j])
}

/// The first place in the list where `p` holds, if there is one.
pub open spec fn first_where<T>(s: Seq<T>, p: spec_fn(T) -> bool) -> Option<int> {
    if exists|i: int| is_first_where(s, p, i) {
        Some(choose|i: int| is_first_where(s, p, i))
    } else {
        None
    }
}

pub proof fn lemma_first_found<T>(s: Seq<T>, p: spec_fn(T) -> bool, i: int)
    requires
        is_first_where(s, p, i),
    ensures
        first_where(s, p) == Some(i),
{
    let c = choose|c: int| is_first_where(s, p, c);
    if c < i {
        assert(!p(s[c]));
    } else if i < c {
        assert(!p(s[i]));
    }
}

pub proof fn lemma_first_absent<T>(s: Seq<T>, p: spec_fn(T) -> bool)
    requires
        forall|j: int| 0 <= j < s.len() ==> !p(#[trigger] s[j]),
    ensures
        first_where(s, p) is None,
{
    if exists|i: int| is_first_where(s, p, i) {
        let c = choose|c: int| is_first_where(s, p, c);
        assert(!p(s[c]));
    }
}

/// The places from 0 up to `n`.
pub open spec fn places(n: nat) -> Seq<int> {
    Seq::new(n, |i: int| i)
}

/// Whether the list holds `id`.
pub open spec fn holds(ids: Seq<Seq<char>>, id: Seq<char>) -> bool {
    exists|j: int| 0 <= j < ids.len() && #[trigger] ids[j] == id
}

/// Whether two texts are the same.
pub fn same_text(a: &str, b: &str) -> (r: bool)
    ensures
        r == (a@ == b@),
{
    let x = a.to_owned();
    let y = b.to_owned();
    x == y
}

/// Moves the issues of `more` to the end of `out`.
pub fn extend(out: &mut Vec<Issue>, more: Vec<Issue>)
    ensures
        views(final(out)@) == views(old(out)@) + views(more@),
{
    let mut more = more;
    out.append(&mut more);
    proof {
        lemma_views_add(old(out)@, more@);
    }
}

} // verus!
