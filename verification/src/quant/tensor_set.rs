//! Checks that a recipe names exactly the tensors of the opened model.

use vstd::prelude::*;
use vstd::relations::{sorted_by, total_ordering};

use crate::text::{chars_of, decimal, join, join_strings, push_decimal, str_eq};

verus! {

/// Byte-wise (equivalently, code-point-wise) lexicographic order, as std
/// orders `str`.
pub open spec fn lex_le(a: Seq<char>, b: Seq<char>) -> bool
    decreases a.len(),
{
    if a.len() == 0 {
        true
    } else if b.len() == 0 {
        false
    } else if a[0] != b[0] {
        a[0] < b[0]
    } else {
        lex_le(a.drop_first(), b.drop_first())
    }
}

/// The order names are sorted by.
pub open spec fn lex_order() -> spec_fn(Seq<char>, Seq<char>) -> bool {
    |a: Seq<char>, b: Seq<char>| lex_le(a, b)
}

/// Names in strictly ascending order, each once, as a `BTreeSet` of
/// strings iterates them.
pub open spec fn ascending_names(s: Seq<Seq<char>>) -> bool {
    forall|i: int, j: int| #![trigger s[i], s[j]] 0 <= i < j < s.len() ==> lex_le(s[i], s[j]) && s[i] != s[j]
}

/// Numbers in strictly ascending order, as a `BTreeSet` iterates them.
pub open spec fn ascending_ids(s: Seq<u32>) -> bool {
    forall|i: int, j: int| #![trigger s[i], s[j]] 0 <= i < j < s.len() ==> s[i] < s[j]
}

proof fn lemma_filter_members(a: Seq<Seq<char>>, pred: spec_fn(Seq<char>) -> bool)
    ensures
        forall|k: int| 0 <= k < a.filter(pred).len() ==> a.drop_last().contains(a.filter(pred)[k]) || (a.len()
            > 0 && a.filter(pred)[k] == a.last()),
    decreases a.len(),
{
    reveal(Seq::filter);
    if a.len() > 0 {
        let prev = a.drop_last();
        lemma_filter_members(prev, pred);
        let fp = prev.filter(pred);
        assert forall|k: int| 0 <= k < fp.len() implies prev.contains(#[trigger] fp[k]) by {
            if !prev.drop_last().contains(fp[k]) {
                assert(prev[prev.len() - 1] == fp[k]);
            } else {
                let m = choose|m: int| 0 <= m < prev.drop_last().len() && prev.drop_last()[m] == fp[k];
                assert(prev[m] == fp[k]);
            }
        }
    }
}

/// Keeping some names of an ascending list keeps it ascending.
pub proof fn lemma_filter_keeps_ascending(a: Seq<Seq<char>>, pred: spec_fn(Seq<char>) -> bool)
    requires
        ascending_names(a),
    ensures
        ascending_names(a.filter(pred)),
    decreases a.len(),
{
    reveal(Seq::filter);
    if a.len() == 0 {
        assert(a.filter(pred).len() == 0);
    } else {
        let prev = a.drop_last();
        assert(ascending_names(prev)) by {
            assert forall|i: int, j: int| 0 <= i < j < prev.len() implies lex_le(prev[i], prev[j]) && prev[i]
                != prev[j] by {
                assert(prev[i] == a[i] && prev[j] == a[j]);
                assert(lex_le(a[i], a[j]) && a[i] != a[j]);
            }
        }
        lemma_filter_keeps_ascending(prev, pred);
        lemma_filter_members(a, pred);
        lemma_filter_members(prev, pred);
        let fp = prev.filter(pred);
        if !pred(a.last()) {
            assert(a.filter(pred) == fp);
        } else {
            let f = fp.push(a.last());
            assert(a.filter(pred) == f);
            assert forall|i: int, j: int| 0 <= i < j < f.len() implies lex_le(f[i], f[j]) && f[i] != f[j] by {
                if j == f.len() - 1 {
                    assert(f[i] == fp[i]);
                    let m: int = if prev.drop_last().contains(fp[i]) {
                        choose|m: int| 0 <= m < prev.drop_last().len() && prev.drop_last()[m] == fp[i]
                    } else {
                        prev.len() - 1
                    };
                    assert(a[m] == fp[i]);
                    assert(a[a.len() - 1] == f[j]);
                    assert(lex_le(a[m], a[a.len() - 1]) && a[m] != a[a.len() - 1]);
                } else {
                    assert(f[i] == fp[i] && f[j] == fp[j]);
                }
            }
        }
    }
}

/// The views of a list of string slices.
pub open spec fn str_views(v: Seq<&str>) -> Seq<Seq<char>> {
    v.map_values(|s: &str| s@)
}

/// `s` in ascending order.
pub open spec fn sorted_names(s: Seq<Seq<char>>) -> Seq<Seq<char>> {
    s.sort_by(lex_order())
}

pub(crate) proof fn lemma_lex_reflexive(a: Seq<char>)
    ensures
        lex_le(a, a),
    decreases a.len(),
{
    if a.len() > 0 {
        lemma_lex_reflexive(a.drop_first());
    }
}

pub(crate) proof fn lemma_lex_antisymmetric(a: Seq<char>, b: Seq<char>)
    requires
        lex_le(a, b),
        lex_le(b, a),
    ensures
        a == b,
    decreases a.len(),
{
    if a.len() > 0 && b.len() > 0 && a[0] == b[0] {
        lemma_lex_antisymmetric(a.drop_first(), b.drop_first());
        assert(a =~= seq![a[0]] + a.drop_first());
        assert(b =~= seq![b[0]] + b.drop_first());
    }
}

pub(crate) proof fn lemma_lex_transitive(a: Seq<char>, b: Seq<char>, c: Seq<char>)
    requires
        lex_le(a, b),
        lex_le(b, c),
    ensures
        lex_le(a, c),
    decreases a.len(),
{
    if a.len() > 0 && b.len() > 0 && c.len() > 0 && a[0] == b[0] && b[0] == c[0] {
        lemma_lex_transitive(a.drop_first(), b.drop_first(), c.drop_first());
    }
}

pub(crate) proof fn lemma_lex_connected(a: Seq<char>, b: Seq<char>)
    ensures
        lex_le(a, b) || lex_le(b, a),
    decreases a.len(),
{
    if a.len() > 0 && b.len() > 0 && a[0] == b[0] {
        lemma_lex_connected(a.drop_first(), b.drop_first());
    }
}

/// The name order is a total order.
pub proof fn lemma_lex_total_ordering()
    ensures
        total_ordering(lex_order()),
{
    let r = lex_order();
    assert forall|a: Seq<char>| #[trigger] r(a, a) by {
        lemma_lex_reflexive(a);
    }
    assert forall|a: Seq<char>, b: Seq<char>| #[trigger] r(a, b) && #[trigger] r(b, a) implies a == b by {
        lemma_lex_antisymmetric(a, b);
    }
    assert forall|a: Seq<char>, b: Seq<char>, c: Seq<char>| #[trigger] r(a, b) && #[trigger] r(
        b,
        c,
    ) implies r(a, c) by {
        lemma_lex_transitive(a, b, c);
    }
    assert forall|a: Seq<char>, b: Seq<char>| #[trigger] r(a, b) || #[trigger] r(b, a) by {
        lemma_lex_connected(a, b);
    }
}

/// Two name lists sort to the same list exactly when they hold the same
/// names the same number of times.
pub proof fn lemma_sorted_equal_iff_same_multiset(a: Seq<Seq<char>>, b: Seq<Seq<char>>)
    ensures
        (sorted_names(a) == sorted_names(b)) <==> (a.to_multiset() == b.to_multiset()),
{
    lemma_lex_total_ordering();
    a.lemma_sort_by_ensures(lex_order());
    b.lemma_sort_by_ensures(lex_order());
    if a.to_multiset() == b.to_multiset() {
        vstd::seq_lib::lemma_sorted_unique(sorted_names(a), sorted_names(b), lex_order());
    }
}

/// Whether `a` sorts before or equal to `b`.
pub fn lex_le_str(a: &str, b: &str) -> (r: bool)
    ensures
        r == lex_le(a@, b@),
{
    let x = chars_of(a);
    let y = chars_of(b);
    let mut i: usize = 0;
    assert(x@.skip(0) == x@);
    assert(y@.skip(0) == y@);
    loop
        invariant
            x@ == a@,
            y@ == b@,
            i <= x.len(),
            i <= y.len(),
            lex_le(x@.skip(i as int), y@.skip(i as int)) == lex_le(a@, b@),
        decreases x.len() - i,
    {
        if i == x.len() {
            return true;
        }
        if i == y.len() {
            return false;
        }
        let ghost xs = x@.skip(i as int);
        let ghost ys = y@.skip(i as int);
        assert(xs[0] == x@[i as int]);
        assert(ys[0] == y@[i as int]);
        if x[i] != y[i] {
            return x[i] < y[i];
        }
        assert(xs.drop_first() == x@.skip(i + 1));
        assert(ys.drop_first() == y@.skip(i + 1));
        i = i + 1;
    }
}

/// `names` in ascending order.
pub fn sort_names<'a>(names: &[&'a str]) -> (r: Vec<&'a str>)
    ensures
        str_views(r@) == sorted_names(str_views(names@)),
{
    proof {
        lemma_lex_total_ordering();
    }
    let ghost leq = lex_order();
    let mut out: Vec<&'a str> = Vec::new();
    let mut i: usize = 0;
    assert(str_views(out@) =~= str_views(names@.take(0)));
    while i < names.len()
        invariant
            i <= names.len(),
            leq == lex_order(),
            total_ordering(leq),
            sorted_by(str_views(out@), leq),
            str_views(out@).to_multiset() == str_views(names@.take(i as int)).to_multiset(),
        decreases names.len() - i,
    {
        let x = names[i];
        let mut p: usize = 0;
        while p < out.len() && lex_le_str(out[p], x)
            invariant
                p <= out.len(),
                leq == lex_order(),
                forall|k: int| 0 <= k < p ==> #[trigger] lex_le(out@[k]@, x@),
            decreases out.len() - p,
        {
            p = p + 1;
        }
        let ghost g = str_views(out@);
        proof {
            if p < out.len() {
                assert(!lex_le(g[p as int], x@));
                lemma_lex_connected(g[p as int], x@);
                assert forall|k: int| p <= k < g.len() implies lex_le(x@, #[trigger] g[k]) by {
                    if k > p {
                        assert(leq(g[p as int], g[k]));
                        lemma_lex_transitive(x@, g[p as int], g[k]);
                    }
                }
            }
        }
        out.insert(p, x);
        let ghost g2 = str_views(out@);
        assert(g2 =~= g.insert(p as int, x@));
        proof {
            assert forall|a: int, b: int| 0 <= a < b < g2.len() implies #[trigger] leq(g2[a], g2[b]) by {
                if b < p {
                    assert(g2[a] == g[a] && g2[b] == g[b]);
                } else if b == p {
                    assert(g2[a] == g[a]);
                    assert(lex_le(out@[a]@, x@));
                } else if a < p {
                    assert(g2[a] == g[a] && g2[b] == g[b - 1]);
                    assert(lex_le(g[a], x@));
                    assert(lex_le(x@, g[b - 1]));
                    lemma_lex_transitive(g[a], x@, g[b - 1]);
                } else if a == p {
                    assert(g2[b] == g[b - 1]);
                } else {
                    assert(g2[a] == g[a - 1] && g2[b] == g[b - 1]);
                }
            }
            vstd::seq_lib::to_multiset_insert(g, p as int, x@);
            assert(str_views(names@.take(i + 1)) =~= str_views(names@.take(i as int)).push(x@));
            vstd::seq_lib::to_multiset_build(str_views(names@.take(i as int)), x@);
        }
        i = i + 1;
    }
    proof {
        assert(names@.take(names.len() as int) == names@);
        str_views(names@).lemma_sort_by_ensures(leq);
        vstd::seq_lib::lemma_sorted_unique(str_views(out@), sorted_names(str_views(names@)), leq);
    }
    out
}

/// The first `n` items of `s`, or all of them when there are fewer.
pub open spec fn at_most(s: Seq<Seq<char>>, n: int) -> Seq<Seq<char>> {
    if s.len() <= n {
        s
    } else {
        s.take(n)
    }
}

/// The items of `s` that `other` does not hold, in order.
pub open spec fn absent_from(s: Seq<Seq<char>>, other: Seq<Seq<char>>) -> Seq<Seq<char>> {
    s.filter(|n: Seq<char>| !other.contains(n))
}

/// The number of positions where an item equals the one before it.
pub open spec fn adjacent_duplicates(s: Seq<Seq<char>>) -> nat
    decreases s.len(),
{
    if s.len() < 2 {
        0
    } else {
        adjacent_duplicates(s.drop_last()) + if s[s.len() - 2] == s[s.len() - 1] {
            1nat
        } else {
            0nat
        }
    }
}

/// What is reported about two sorted name lists that differ.
pub open spec fn mismatch_details(sc: Seq<Seq<char>>, sr: Seq<Seq<char>>) -> Seq<Seq<char>> {
    let missing = at_most(absent_from(sc, sr), 5);
    let extra = at_most(absent_from(sr, sc), 5);
    let dups = adjacent_duplicates(sr);
    let d1 = if missing.len() > 0 {
        seq!["missing from recipe: "@ + join(missing, ", "@)]
    } else {
        seq![]
    };
    let d2 = if extra.len() > 0 {
        seq!["not in current model: "@ + join(extra, ", "@)]
    } else {
        seq![]
    };
    let d3 = if dups > 0 {
        seq!["duplicate recipe tensor entries: "@ + decimal(dups)]
    } else {
        seq![]
    };
    let d = d1 + d2 + d3;
    if d.len() == 0 {
        seq![
            "current model has "@ + decimal(sc.len()) + " tensors, recipe has "@ + decimal(sr.len())
                + " assignments"@,
        ]
    } else {
        d
    }
}

/// The error for a recipe whose tensor names differ from the model's.
pub open spec fn mismatch_message(current: Seq<Seq<char>>, recipe: Seq<Seq<char>>) -> Seq<char> {
    "Recipe does not match the currently opened model ("@ + join(
        mismatch_details(sorted_names(current), sorted_names(recipe)),
        "; "@,
    ) + ")"@
}

/// Whether `v` holds the name `x`.
pub(crate) fn names_contain(v: &Vec<&str>, x: &str) -> (r: bool)
    ensures
        r == str_views(v@).contains(x@),
{
    let mut i: usize = 0;
    while i < v.len()
        invariant
            i <= v.len(),
            forall|k: int| 0 <= k < i ==> str_views(v@)[k] != x@,
        decreases v.len() - i,
    {
        if str_eq(v[i], x) {
            assert(str_views(v@)[i as int] == x@);
            return true;
        }
        i = i + 1;
    }
    false
}

/// The names of `v` that `other` does not hold, in order.
fn names_absent_from<'a>(v: &Vec<&'a str>, other: &Vec<&str>) -> (r: Vec<&'a str>)
    ensures
        str_views(r@) == absent_from(str_views(v@), str_views(other@)),
{
    let ghost pred = |n: Seq<char>| !str_views(other@).contains(n);
    let mut out: Vec<&'a str> = Vec::new();
    let mut i: usize = 0;
    proof {
        reveal(Seq::filter);
    }
    assert(str_views(v@).take(0).filter(pred) =~= Seq::<Seq<char>>::empty());
    while i < v.len()
        invariant
            i <= v.len(),
            pred == (|n: Seq<char>| !str_views(other@).contains(n)),
            str_views(out@) == str_views(v@).take(i as int).filter(pred),
        decreases v.len() - i,
    {
        let ghost t = str_views(v@).take(i + 1);
        assert(t.drop_last() == str_views(v@).take(i as int));
        assert(t.last() == v@[i as int]@);
        let present = names_contain(other, v[i]);
        proof {
            reveal(Seq::filter);
        }
        assert(pred(t.last()) == !present);
        assert(t.filter(pred) == (if pred(t.last()) {
            t.drop_last().filter(pred).push(t.last())
        } else {
            t.drop_last().filter(pred)
        }));
        if !present {
            let ghost before = str_views(out@);
            out.push(v[i]);
            assert(str_views(out@) =~= before.push(v@[i as int]@));
        }
        i = i + 1;
    }
    assert(str_views(v@).take(v.len() as int) == str_views(v@));
    out
}

/// How many names equal the one before them.
fn count_adjacent_duplicates(v: &Vec<&str>) -> (r: u64)
    ensures
        r == adjacent_duplicates(str_views(v@)),
{
    let mut count: u64 = 0;
    let mut i: usize = 1;
    if v.len() < 2 {
        return 0;
    }
    assert(str_views(v@).take(1).len() < 2);
    while i < v.len()
        invariant
            1 <= i <= v.len(),
            count == adjacent_duplicates(str_views(v@).take(i as int)),
            count <= i,
        decreases v.len() - i,
    {
        let ghost t = str_views(v@).take(i + 1);
        assert(t.drop_last() == str_views(v@).take(i as int));
        assert(t[t.len() - 2] == v@[i - 1]@);
        assert(t[t.len() - 1] == v@[i as int]@);
        if str_eq(v[i - 1], v[i]) {
            count = count + 1;
        }
        i = i + 1;
    }
    assert(str_views(v@).take(v.len() as int) == str_views(v@));
    count
}

/// Whether two name lists are equal item by item.
fn same_names(a: &Vec<&str>, b: &Vec<&str>) -> (r: bool)
    ensures
        r == (str_views(a@) == str_views(b@)),
{
    if a.len() != b.len() {
        assert(str_views(a@).len() != str_views(b@).len());
        return false;
    }
    let mut i: usize = 0;
    while i < a.len()
        invariant
            a.len() == b.len(),
            i <= a.len(),
            forall|k: int| 0 <= k < i ==> str_views(a@)[k] == str_views(b@)[k],
        decreases a.len() - i,
    {
        if !str_eq(a[i], b[i]) {
            assert(str_views(a@)[i as int] != str_views(b@)[i as int]);
            return false;
        }
        i = i + 1;
    }
    assert(str_views(a@) =~= str_views(b@));
    true
}

/// Appends the first `limit` names of `parts`, joined by `sep`.
fn push_joined(m: &mut String, parts: &Vec<&str>, limit: usize, sep: &str)
    ensures
        final(m)@ == old(m)@ + join(at_most(str_views(parts@), limit as int), sep@),
{
    let n = if parts.len() <= limit { parts.len() } else { limit };
    let ghost whole = at_most(str_views(parts@), limit as int);
    assert(whole =~= str_views(parts@).take(n as int));
    let mut i: usize = 0;
    assert(old(m)@ + join(whole.take(0), sep@) == old(m)@);
    while i < n
        invariant
            i <= n <= parts.len(),
            whole == str_views(parts@).take(n as int),
            m@ == old(m)@ + join(whole.take(i as int), sep@),
        decreases n - i,
    {
        assert(whole.take(i + 1).drop_last() == whole.take(i as int));
        assert(whole.take(i + 1).last() == parts@[i as int]@);
        if i > 0 {
            m.append(sep);
        }
        m.append(parts[i]);
        i = i + 1;
    }
    assert(whole.take(n as int) == whole);
}

/// Accepts a recipe whose tensor names are the model's tensor names in any
/// order, each as often; otherwise says what is missing, what is extra and
/// how many entries repeat.
pub fn validate_recipe_tensors(current_tensors: &[&str], recipe_tensors: &[&str]) -> (r: Result<
    (),
    String,
>)
    ensures
        r is Ok <==> sorted_names(str_views(current_tensors@)) == sorted_names(
            str_views(recipe_tensors@),
        ),
        r matches Err(m) ==> m@ == mismatch_message(str_views(current_tensors@), str_views(recipe_tensors@)),
{
    let current = sort_names(current_tensors);
    let recipe = sort_names(recipe_tensors);
    if same_names(&current, &recipe) {
        return Ok(());
    }
    let ghost sc = str_views(current@);
    let ghost sr = str_views(recipe@);
    let missing = names_absent_from(&current, &recipe);
    let extra = names_absent_from(&recipe, &current);
    let duplicate_count = count_adjacent_duplicates(&recipe);
    let mut details: Vec<String> = Vec::new();
    if missing.len() > 0 {
        let mut d = String::from_str("missing from recipe: ");
        push_joined(&mut d, &missing, 5, ", ");
        details.push(d);
    }
    if extra.len() > 0 {
        let mut d = String::from_str("not in current model: ");
        push_joined(&mut d, &extra, 5, ", ");
        let ghost before = details@;
        details.push(d);
        assert(details@ == before.push(d));
    }
    if duplicate_count > 0 {
        let mut d = String::from_str("duplicate recipe tensor entries: ");
        push_decimal(&mut d, duplicate_count);
        let ghost before = details@;
        details.push(d);
        assert(details@ == before.push(d));
    }
    if details.len() == 0 {
        let mut d = String::from_str("current model has ");
        push_decimal(&mut d, current.len() as u64);
        d.append(" tensors, recipe has ");
        push_decimal(&mut d, recipe.len() as u64);
        d.append(" assignments");
        details.push(d);
    }
    proof {
        let missing_v = at_most(absent_from(sc, sr), 5);
        let extra_v = at_most(absent_from(sr, sc), 5);
        assert(missing_v.len() > 0 <==> missing@.len() > 0);
        assert(extra_v.len() > 0 <==> extra@.len() > 0);
        assert(details@.map_values(|p: String| p@) =~= mismatch_details(sc, sr));
    }
    let mut m = String::from_str("Recipe does not match the currently opened model (");
    let joined = join_strings(&details, "; ");
    m.append(joined.as_str());
    m.append(")");
    Err(m)
}

} // verus!
