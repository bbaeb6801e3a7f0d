//! Process names: their order, sorted lists of them, and sets of them.
use vstd::prelude::*;
use vstd::string::StrSliceExecFns;

verus! {

/// `a` comes strictly before `b`: character by character by code point, a
/// proper prefix first. For UTF-8 text this is the byte order that `str`'s
/// `Ord` and SQLite's binary collation use.
pub open spec fn str_lt(a: Seq<char>, b: Seq<char>) -> bool
    decreases a.len(),
{
    if a.len() == 0 {
        b.len() > 0
    } else if b.len() == 0 {
        false
    } else if a[0] != b[0] {
        (a[0] as int) < (b[0] as int)
    } else {
        str_lt(a.drop_first(), b.drop_first())
    }
}

/// `a` comes before `b` or is `b`.
pub open spec fn str_le(a: Seq<char>, b: Seq<char>) -> bool {
    a == b || str_lt(a, b)
}

/// No text comes before itself.
pub proof fn lemma_str_lt_irreflexive(a: Seq<char>)
    ensures
        !str_lt(a, a),
    decreases a.len(),
{
    if a.len() > 0 {
        lemma_str_lt_irreflexive(a.drop_first());
    }
}

/// Of two different texts, one comes first.
pub proof fn lemma_str_lt_total(a: Seq<char>, b: Seq<char>)
    ensures
        a != b ==> (str_lt(a, b) || str_lt(b, a)),
    decreases a.len(),
{
    if a.len() == 0 && b.len() == 0 {
        assert(a =~= b);
    } else if a.len() > 0 && b.len() > 0 && a[0] == b[0] {
        lemma_str_lt_total(a.drop_first(), b.drop_first());
        if a.drop_first() == b.drop_first() {
            assert(a.drop_first().len() == a.len() - 1);
            assert(b.drop_first().len() == b.len() - 1);
            assert(a =~= b) by {
                assert forall|i: int| 0 <= i < a.len() implies a[i] == b[i] by {
                    if i > 0 {
                        assert(a[i] == a.drop_first()[i - 1]);
                        assert(b[i] == b.drop_first()[i - 1]);
                    }
                }
            }
        }
    } else if a.len() > 0 && b.len() > 0 {
        assert((a[0] as int) != (b[0] as int));
    }
}

/// The order is transitive.
pub proof fn lemma_str_lt_transitive(a: Seq<char>, b: Seq<char>, c: Seq<char>)
    requires
        str_lt(a, b),
        str_lt(b, c),
    ensures
        str_lt(a, c),
    decreases a.len(),
{
    if a.len() > 0 && b.len() > 0 && c.len() > 0 {
        if a[0] == b[0] && b[0] == c[0] {
            lemma_str_lt_transitive(a.drop_first(), b.drop_first(), c.drop_first());
        }
    }
}

/// `a` comes strictly before `b` in the order of [`str_lt`].
pub fn name_less(a: &String, b: &String) -> (r: bool)
    ensures
        r == str_lt(a@, b@),
{
    let sa = a.as_str();
    let sb = b.as_str();
    let la = sa.unicode_len();
    let lb = sb.unicode_len();
    let mut i: usize = 0;
    assert(a@.skip(0) =~= a@);
    assert(b@.skip(0) =~= b@);
    while i < la && i < lb
        invariant
            la == a@.len(),
            lb == b@.len(),
            sa@ == a@,
            sb@ == b@,
            i <= la,
            i <= lb,
            str_lt(a@, b@) == str_lt(a@.skip(i as int), b@.skip(i as int)),
        decreases la - i,
    {
        let ca = sa.get_char(i);
        let cb = sb.get_char(i);
        if ca != cb {
            assert(a@.skip(i as int)[0] == ca);
            assert(b@.skip(i as int)[0] == cb);
            return ca < cb;
        }
        assert(a@.skip(i as int).drop_first() =~= a@.skip(i + 1));
        assert(b@.skip(i as int).drop_first() =~= b@.skip(i + 1));
        i = i + 1;
    }
    i < lb
}

/// `s` is in non-decreasing order of [`str_lt`].
pub open spec fn sorted_names(s: Seq<String>) -> bool {
    forall|i: int, j: int| 0 <= i < j < s.len() ==> str_le(s[i]@, s[j]@)
}

/// Sorts names in place into the order of [`str_lt`], keeping every name (as
/// `sort` on a `Vec<String>` does).
pub fn sort_names(v: &mut Vec<String>)
    ensures
        sorted_names(final(v)@),
        final(v)@.to_multiset() == old(v)@.to_multiset(),
{
    broadcast use vstd::seq_lib::group_to_multiset_ensures;

    let ghost orig = v@;
    let mut src: Vec<String> = Vec::new();
    std::mem::swap(&mut src, v);
    let mut k: usize = 0;
    while k < src.len()
        invariant
            0 <= k <= src.len(),
            src@ == orig,
            sorted_names(v@),
            v@.to_multiset() == src@.subrange(0, k as int).to_multiset(),
        decreases src.len() - k,
    {
        let x = src[k].clone();
        // find the first position whose name comes after x
        let mut p: usize = 0;
        while p < v.len()
            invariant
                p <= v.len(),
                sorted_names(v@),
                forall|q: int| 0 <= q < p ==> !str_lt(x@, #[trigger] v@[q]@),
            ensures
                p <= v.len(),
                forall|q: int| 0 <= q < p ==> !str_lt(x@, #[trigger] v@[q]@),
                p == v.len() || str_lt(x@, v@[p as int]@),
            decreases v.len() - p,
        {
            if name_less(&x, &v[p]) {
                break;
            }
            p = p + 1;
        }
        let pos = p;
        proof {
            assert forall|q: int| 0 <= q < pos implies str_le(#[trigger] v@[q]@, x@) by {
                lemma_str_lt_total(v@[q]@, x@);
            }
            assert forall|q: int| pos <= q < v@.len() implies str_lt(x@, #[trigger] v@[q]@) by {
                if pos < v@.len() {
                    // v[pos] comes after x, and v is sorted
                    if q > pos {
                        assert(str_le(v@[pos as int]@, v@[q]@));
                        if v@[pos as int]@ == v@[q]@ {
                        } else {
                            lemma_str_lt_transitive(x@, v@[pos as int]@, v@[q]@);
                        }
                    }
                }
            }
        }
        let ghost before = v@;
        v.insert(pos, x);
        proof {
            let t = v@;
            assert(t == before.insert(pos as int, src@[k as int]));
            assert forall|i: int, j: int| 0 <= i < j < t.len() implies str_le(t[i]@, t[j]@) by {
                before.insert_ensures(pos as int, src@[k as int]);
                if j < pos {
                } else if i < pos && j == pos {
                } else if i < pos && j > pos {
                    assert(t[j] == before[j - 1]);
                } else if i == pos {
                    assert(t[j] == before[j - 1]);
                    lemma_str_lt_irreflexive(src@[k as int]@);
                } else {
                    assert(t[i] == before[i - 1]);
                    assert(t[j] == before[j - 1]);
                }
            }
            vstd::seq_lib::to_multiset_insert(before, pos as int, src@[k as int]);
            assert(src@.subrange(0, k + 1) =~= src@.subrange(0, k as int).push(src@[k as int]));
            vstd::seq_lib::to_multiset_build(src@.subrange(0, k as int), src@[k as int]);
        }
        k = k + 1;
    }
    assert(src@.subrange(0, src.len() as int) =~= src@);
}

/// `s` is in strictly increasing order of [`str_lt`]: sorted, no name twice.
pub open spec fn strictly_sorted_names(s: Seq<String>) -> bool {
    forall|i: int, j: int| 0 <= i < j < s.len() ==> str_lt(s[i]@, s[j]@)
}

/// Sorting a strictly increasing list with one new name added gives a
/// strictly increasing list again.
pub proof fn lemma_sorted_with_new_name(old_list: Seq<String>, name: String, new_list: Seq<String>)
    requires
        strictly_sorted_names(old_list),
        !texts(old_list).contains(name@),
        sorted_names(new_list),
        new_list.to_multiset() == old_list.push(name).to_multiset(),
    ensures
        strictly_sorted_names(new_list),
{
    broadcast use vstd::seq_lib::group_to_multiset_ensures;

    let all = old_list.push(name);
    assert forall|a: int, b: int| 0 <= a < b < all.len() implies all[a]@ != all[b]@ by {
        if b < old_list.len() {
            assert(all[a] == old_list[a] && all[b] == old_list[b]);
            lemma_str_lt_irreflexive(old_list[a]@);
        } else {
            assert(all[a] == old_list[a]);
            assert(texts(old_list)[a] == old_list[a]@);
        }
    }
    assert(all.no_duplicates());
    all.lemma_multiset_has_no_duplicates();
    new_list.lemma_multiset_has_no_duplicates_conv();
    assert forall|i: int, j: int| 0 <= i < j < new_list.len() implies str_lt(new_list[i]@, new_list[j]@) by {
        assert(str_le(new_list[i]@, new_list[j]@));
        if new_list[i]@ == new_list[j]@ {
            assert(new_list.contains(new_list[i]));
            assert(new_list.to_multiset().count(new_list[i]) > 0);
            assert(all.contains(new_list[i]));
            assert(new_list.contains(new_list[j]));
            assert(new_list.to_multiset().count(new_list[j]) > 0);
            assert(all.contains(new_list[j]));
            let a = choose|a: int| 0 <= a < all.len() && all[a] == new_list[i];
            let b = choose|b: int| 0 <= b < all.len() && all[b] == new_list[j];
            if a < b {
                assert(all[a]@ != all[b]@);
            } else if b < a {
                assert(all[b]@ != all[a]@);
            }
            assert(new_list[i] == new_list[j]);
        }
    }
}

/// The texts of a list of names.
pub open spec fn texts(s: Seq<String>) -> Seq<Seq<char>> {
    s.map_values(|n: String| n@)
}

/// Whether `name` is in the list, compared by text.
pub fn list_contains(list: &Vec<String>, name: &String) -> (r: bool)
    ensures
        r == texts(list@).contains(name@),
{
    let mut i: usize = 0;
    while i < list.len()
        invariant
            i <= list.len(),
            forall|j: int| 0 <= j < i ==> list@[j]@ != name@,
        decreases list.len() - i,
    {
        if list[i] == *name {
            assert(texts(list@)[i as int] == name@);
            return true;
        }
        i = i + 1;
    }
    proof {
        if texts(list@).contains(name@) {
            let j = choose|j: int| 0 <= j < texts(list@).len() && texts(list@)[j] == name@;
            assert(list@[j]@ == name@);
        }
    }
    false
}

/// A set of names, compared by text.
///
/// The names form a list in which no name occurs twice; the view is the set
/// of their texts, and forgets the order of the list.
#[derive(Debug)]
pub struct NameSet {
    names: Vec<String>,
}

impl View for NameSet {
    type V = Set<Seq<char>>;

    /// The texts in the set.
    closed spec fn view(&self) -> Set<Seq<char>> {
        texts(self.names@).to_set()
    }
}

impl NameSet {
    #[verifier::type_invariant]
    spec fn no_repeats(self) -> bool {
        texts(self.names@).no_duplicates()
    }

    /// The empty set.
    pub fn new() -> (r: NameSet)
        ensures
            r.view() == Set::<Seq<char>>::empty(),
    {
        let r = NameSet { names: Vec::new() };
        assert(r.view() =~= Set::<Seq<char>>::empty());
        r
    }

    /// Whether `name` is in the set.
    pub fn contains(&self, name: &String) -> (r: bool)
        ensures
            r == self.view().contains(name@),
    {
        list_contains(&self.names, name)
    }

    /// Adds `name`; nothing changes when it is there already.
    pub fn insert(&mut self, name: String)
        ensures
            final(self).view() == old(self).view().insert(name@),
    {
        proof {
            use_type_invariant(&*self);
        }
        if !list_contains(&self.names, &name) {
            let ghost before = self.names@;
            let ghost t = name@;
            let mut names: Vec<String> = Vec::new();
            std::mem::swap(&mut names, &mut self.names);
            names.push(name);
            proof {
                assert(texts(names@) =~= texts(before).push(t));
                assert forall|a: int, b: int| 0 <= a < b < texts(names@).len() implies texts(names@)[a] != texts(names@)[b] by {
                    if b == before.len() {
                        assert(texts(before)[a] == texts(names@)[a]);
                    }
                }
            }
            self.names = names;
            proof {
                assert(texts(self.names@) =~= texts(before).push(t));
                assert(texts(self.names@).to_set() =~= texts(before).to_set().insert(t)) by {
                    assert forall|x: Seq<char>| texts(self.names@).contains(x) <==> texts(before).contains(x) || x == t by {
                        if texts(self.names@).contains(x) {
                            let j = choose|j: int| 0 <= j < texts(self.names@).len() && texts(self.names@)[j] == x;
                            if j < before.len() {
                                assert(texts(before)[j] == x);
                            }
                        }
                        if texts(before).contains(x) {
                            let j = choose|j: int| 0 <= j < texts(before).len() && texts(before)[j] == x;
                            assert(texts(self.names@)[j] == x);
                        }
                        if x == t {
                            assert(texts(self.names@)[before.len() as int] == x);
                        }
                    }
                }
            }
        } else {
            assert(self.view() =~= old(self).view().insert(name@));
        }
    }

    /// Takes `name` out; nothing changes when it is not there.
    pub fn remove(&mut self, name: &String)
        ensures
            final(self).view() == old(self).view().remove(name@),
    {
        proof {
            use_type_invariant(&*self);
        }
        let mut i: usize = 0;
        while i < self.names.len()
            invariant
                i <= self.names.len(),
                self.names@ == old(self).names@,
                texts(self.names@).no_duplicates(),
                forall|j: int| 0 <= j < i ==> self.names@[j]@ != name@,
            decreases self.names.len() - i,
        {
            if self.names[i] == *name {
                let ghost before = self.names@;
                let mut names: Vec<String> = Vec::new();
                std::mem::swap(&mut names, &mut self.names);
                names.remove(i);
                proof {
                    assert(texts(names@) =~= texts(before).remove(i as int));
                    assert forall|a: int, b: int| 0 <= a < b < texts(names@).len() implies texts(names@)[a] != texts(names@)[b] by {
                        let aa = if a < i { a } else { a + 1 };
                        let bb = if b < i { b } else { b + 1 };
                        assert(texts(names@)[a] == texts(before)[aa]);
                        assert(texts(names@)[b] == texts(before)[bb]);
                    }
                }
                self.names = names;
                proof {
                    let ts = texts(before);
                    assert(texts(self.names@) =~= ts.remove(i as int));
                    assert forall|x: Seq<char>| texts(self.names@).contains(x) <==> (ts.contains(x) && x != name@) by {
                        if texts(self.names@).contains(x) {
                            let j = choose|j: int| 0 <= j < texts(self.names@).len() && texts(self.names@)[j] == x;
                            assert(ts[i as int] == name@);
                            if j < i {
                                assert(ts[j] == x);
                            } else {
                                assert(ts[j + 1] == x);
                            }
                        }
                        if ts.contains(x) && x != name@ {
                            let j = choose|j: int| 0 <= j < ts.len() && ts[j] == x;
                            if j < i {
                                assert(texts(self.names@)[j] == x);
                            } else {
                                assert(j != i);
                                assert(texts(self.names@)[j - 1] == x);
                            }
                        }
                    }
                    assert(self.view() =~= old(self).view().remove(name@));
                }
                return;
            }
            i = i + 1;
        }
        proof {
            assert forall|x: Seq<char>| old(self).view().contains(x) implies x != name@ by {
                assert(texts(self.names@).contains(x));
                let j = choose|j: int| 0 <= j < texts(self.names@).len() && texts(self.names@)[j] == x;
                assert(self.names@[j]@ == x);
            }
            assert(self.view() =~= old(self).view().remove(name@));
        }
    }
}

} // verus!
