//! Function naming: every function gets one name, exports taking priority
//! over the name section, and repeated names made unique by the index.
use vstd::prelude::*;
use crate::disasm::tokens::hex_digit_str;

verus! {

/// The decimal digits of `n`.
pub open spec fn decimal(n: nat) -> Seq<char>
    decreases n,
{
    if n < 10 {
        seq![((48 + n) as char)]
    } else {
        decimal(n / 10).push(((48 + n % 10) as char))
    }
}

/// The decimal digits of `n`, as `format!("{}", n)` writes them.
pub(crate) fn decimal_text(n: u64) -> (r: String)
    ensures
        r@ == decimal(n as nat),
    decreases n,
{
    if n < 10 {
        String::from_str(hex_digit_str(n))
    } else {
        let mut s = decimal_text(n / 10);
        s.append(hex_digit_str(n % 10));
        s
    }
}

/// An underscore and the decimal digits of `idx`.
fn index_suffix(idx: u32) -> (r: String)
    ensures
        r@ == seq!['_'] + decimal(idx as nat),
{
    let mut r = String::from_str("_");
    let digits = decimal_text(idx as u64);
    r.append(digits.as_str());
    proof {
        reveal_strlit("_");
        assert("_"@ =~= seq!['_']);
    }
    r
}

/// The names recorded for each index; a later entry for an index replaces an earlier one.
pub open spec fn name_map(v: Seq<(u32, String)>) -> Map<u32, Seq<char>>
    decreases v.len(),
{
    if v.len() == 0 {
        Map::empty()
    } else {
        name_map(v.drop_last()).insert(v.last().0, v.last().1@)
    }
}

/// The name a function is known by: its export name if exported, else the
/// name from the name section.
pub open spec fn base_name(func_names: Seq<(u32, String)>, exports: Seq<(u32, String)>, idx: u32) -> Seq<char> {
    if name_map(exports).contains_key(idx) {
        name_map(exports)[idx]
    } else {
        name_map(func_names)[idx]
    }
}

/// The names of the first `i` entries.
pub open spec fn names_before(r: Seq<(u32, String)>, i: int) -> Seq<Seq<char>> {
    r.take(i).map_values(|p: (u32, String)| p.1@)
}

/// How many names of `used` are at least `n` characters long.
pub open spec fn count_long(used: Seq<Seq<char>>, n: nat) -> nat
    decreases used.len(),
{
    if used.len() == 0 {
        0
    } else {
        count_long(used.drop_last(), n) + if used.last().len() >= n { 1nat } else { 0nat }
    }
}

/// `c`, with `suf` appended as often as it takes (at most `fuel` times) to
/// get a name that `used` does not hold.
pub open spec fn fresh_name(used: Seq<Seq<char>>, c: Seq<char>, suf: Seq<char>, fuel: nat) -> Seq<char>
    decreases fuel,
{
    if fuel == 0 || !used.contains(c) {
        c
    } else {
        fresh_name(used, c + suf, suf, (fuel - 1) as nat)
    }
}

/// The name given to the `i`th entry: its base name if no earlier entry has
/// it, else the base name with an underscore and its index appended, again
/// until no earlier entry has it.
pub open spec fn unique_name_at(r: Seq<(u32, String)>, i: int, base: Seq<char>) -> Seq<char> {
    fresh_name(names_before(r, i), base, seq!['_'] + decimal(r[i].0 as nat), (i + 1) as nat)
}

proof fn lemma_count_mono(used: Seq<Seq<char>>, n1: nat, n2: nat)
    requires
        n1 <= n2,
    ensures
        count_long(used, n2) <= count_long(used, n1),
    decreases used.len(),
{
    if used.len() > 0 {
        lemma_count_mono(used.drop_last(), n1, n2);
    }
}

proof fn lemma_count_bound(used: Seq<Seq<char>>, n: nat)
    ensures
        count_long(used, n) <= used.len(),
    decreases used.len(),
{
    if used.len() > 0 {
        lemma_count_bound(used.drop_last(), n);
    }
}

proof fn lemma_count_strict(used: Seq<Seq<char>>, n1: nat, n2: nat, w: int)
    requires
        n1 < n2,
        0 <= w < used.len(),
        used[w].len() == n1,
    ensures
        count_long(used, n2) < count_long(used, n1),
    decreases used.len(),
{
    if w == used.len() - 1 {
        lemma_count_mono(used.drop_last(), n1, n2);
    } else {
        assert(used.drop_last()[w] == used[w]);
        lemma_count_strict(used.drop_last(), n1, n2, w);
    }
}

/// A fresh name is not among the used ones, given enough tries.
proof fn lemma_fresh(used: Seq<Seq<char>>, c: Seq<char>, suf: Seq<char>, fuel: nat)
    requires
        suf.len() > 0,
        fuel > count_long(used, c.len()),
    ensures
        !used.contains(fresh_name(used, c, suf, fuel)),
    decreases fuel,
{
    if used.contains(c) {
        let w = choose|w: int| 0 <= w < used.len() && used[w] == c;
        lemma_count_strict(used, c.len(), (c + suf).len(), w);
        lemma_fresh(used, c + suf, suf, (fuel - 1) as nat);
    }
}

/// Names given to a prefix stay as they were.
proof fn lemma_names_before_prefix(r1: Seq<(u32, String)>, r2: Seq<(u32, String)>, i: int)
    requires
        0 <= i <= r1.len(),
        i <= r2.len(),
        forall|t: int| 0 <= t < i ==> #[trigger] r1[t] == r2[t],
    ensures
        names_before(r1, i) == names_before(r2, i),
{
    assert(names_before(r1, i) =~= names_before(r2, i));
}

/// `r` holds each function index named by `func_names` or `exports` once, in
/// ascending order, each with the name `deduplicate_func_names` gives it.
pub open spec fn is_deduplicated(func_names: Seq<(u32, String)>, exports: Seq<(u32, String)>, r: Seq<(u32, String)>) -> bool {
    &&& forall|i: int, j: int| 0 <= i < j < r.len() ==> (#[trigger] r[i]).0 < (#[trigger] r[j]).0
    &&& forall|k: u32| (exists|i: int| 0 <= i < r.len() && (#[trigger] r[i]).0 == k)
        <==> (name_map(func_names).contains_key(k) || name_map(exports).contains_key(k))
    &&& forall|i: int| 0 <= i < r.len() ==> (#[trigger] r[i]).1@ == unique_name_at(r, i, base_name(func_names, exports, r[i].0))
    &&& forall|i: int, j: int| 0 <= i < j < r.len() ==> (#[trigger] r[i]).1@ != (#[trigger] r[j]).1@
}

proof fn lemma_name_map_last(v: Seq<(u32, String)>, j: int)
    requires
        0 <= j < v.len(),
        forall|i: int| j < i < v.len() ==> (#[trigger] v[i]).0 != v[j].0,
    ensures
        name_map(v).contains_key(v[j].0),
        name_map(v)[v[j].0] == v[j].1@,
    decreases v.len(),
{
    if j < v.len() - 1 {
        lemma_name_map_last(v.drop_last(), j);
    }
}

proof fn lemma_name_map_absent(v: Seq<(u32, String)>, k: u32)
    requires
        forall|i: int| 0 <= i < v.len() ==> (#[trigger] v[i]).0 != k,
    ensures
        !name_map(v).contains_key(k),
    decreases v.len(),
{
    if v.len() > 0 {
        lemma_name_map_absent(v.drop_last(), k);
    }
}

proof fn lemma_name_map_keys(v: Seq<(u32, String)>, k: u32)
    ensures
        name_map(v).contains_key(k) <==> exists|i: int| 0 <= i < v.len() && (#[trigger] v[i]).0 == k,
    decreases v.len(),
{
    if v.len() > 0 {
        lemma_name_map_keys(v.drop_last(), k);
        if exists|i: int| 0 <= i < v.len() && (#[trigger] v[i]).0 == k {
            let i = choose|i: int| 0 <= i < v.len() && (#[trigger] v[i]).0 == k;
            if i < v.len() - 1 {
                assert(v.drop_last()[i].0 == k);
            }
        }
        if exists|i: int| 0 <= i < v.len() - 1 && (#[trigger] v.drop_last()[i]).0 == k {
            let i = choose|i: int| 0 <= i < v.len() - 1 && (#[trigger] v.drop_last()[i]).0 == k;
            assert(v[i].0 == k);
        }
    }
}

/// The name recorded last for `idx` in `v`, if any.
fn lookup_name(v: &Vec<(u32, String)>, idx: u32) -> (r: Option<&String>)
    ensures
        r matches Some(s) ==> name_map(v@).contains_key(idx) && name_map(v@)[idx] == s@,
        r is None ==> !name_map(v@).contains_key(idx),
{
    let mut k: usize = v.len();
    while k > 0
        invariant
            k <= v@.len(),
            forall|i: int| k <= i < v@.len() ==> (#[trigger] v@[i]).0 != idx,
        decreases k,
    {
        if v[k - 1].0 == idx {
            proof {
                lemma_name_map_last(v@, k - 1);
            }
            return Some(&v[k - 1].1);
        }
        k -= 1;
    }
    proof {
        lemma_name_map_absent(v@, idx);
    }
    None
}

/// `k` lies above the bound (any `k` does when there is none).
pub open spec fn is_above(lower: Option<u32>, k: u32) -> bool {
    match lower {
        Some(l) => k > l,
        None => true,
    }
}

/// The smallest index named in `v` that is above `lower` (any, when `lower` is `None`).
fn least_index_above(v: &Vec<(u32, String)>, lower: Option<u32>) -> (r: Option<u32>)
    ensures
        r is Some ==> {
            &&& exists|i: int| 0 <= i < v@.len() && (#[trigger] v@[i]).0 == r->0
            &&& is_above(lower, r->0)
            &&& forall|i: int| 0 <= i < v@.len() && is_above(lower, (#[trigger] v@[i]).0) ==> r->0 <= v@[i].0
        },
        r is None ==> forall|i: int| 0 <= i < v@.len() ==> !is_above(lower, (#[trigger] v@[i]).0),
{
    let mut best: Option<u32> = None;
    let mut i: usize = 0;
    while i < v.len()
        invariant
            i <= v@.len(),
            best is Some ==> {
                &&& exists|j: int| 0 <= j < i && (#[trigger] v@[j]).0 == best->0
                &&& is_above(lower, best->0)
                &&& forall|j: int| 0 <= j < i && is_above(lower, (#[trigger] v@[j]).0) ==> best->0 <= v@[j].0
            },
            best is None ==> forall|j: int| 0 <= j < i ==> !is_above(lower, (#[trigger] v@[j]).0),
        decreases v@.len() - i,
    {
        let k = v[i].0;
        let above = match lower {
            Some(l) => k > l,
            None => true,
        };
        if above {
            match best {
                Some(m) => {
                    if k < m {
                        best = Some(k);
                    }
                },
                None => {
                    best = Some(k);
                },
            }
        }
        i += 1;
    }
    best
}

/// Give each function named in `func_names` or `exports` one name, in
/// ascending index order: its export name if exported, else its name-section
/// name; a name given before gets an underscore and the index appended,
/// again until the name is new. No two functions get the same name.
pub fn deduplicate_func_names(func_names: &Vec<(u32, String)>, exports: &Vec<(u32, String)>) -> (r: Vec<(u32, String)>)
    ensures
        is_deduplicated(func_names@, exports@, r@),
{
    let mut result: Vec<(u32, String)> = Vec::new();
    let mut last: Option<u32> = None;
    loop
        invariant
            forall|i: int, j: int| 0 <= i < j < result@.len() ==> (#[trigger] result@[i]).0 < (#[trigger] result@[j]).0,
            last is None <==> result@.len() == 0,
            last is Some ==> result@.last().0 == last->0,
            forall|k: u32| (exists|i: int| 0 <= i < result@.len() && (#[trigger] result@[i]).0 == k)
                <==> ((name_map(func_names@).contains_key(k) || name_map(exports@).contains_key(k))
                    && (last is Some && k <= last->0)),
            forall|i: int| 0 <= i < result@.len() ==> (#[trigger] result@[i]).1@
                == unique_name_at(result@, i, base_name(func_names@, exports@, result@[i].0)),
            forall|i: int, j: int| 0 <= i < j < result@.len() ==> (#[trigger] result@[i]).1@ != (#[trigger] result@[j]).1@,
        ensures
            forall|k: u32| (name_map(func_names@).contains_key(k) || name_map(exports@).contains_key(k))
                ==> (last is Some && k <= last->0),
        decreases (if last is Some { u32::MAX - last->0 + 1 } else { u32::MAX + 2 }),
    {
        let a = least_index_above(func_names, last);
        let b = least_index_above(exports, last);
        let next = match (a, b) {
            (Some(x), Some(y)) => if x <= y { x } else { y },
            (Some(x), None) => x,
            (None, Some(y)) => y,
            (None, None) => {
                proof {
                    assert forall|k: u32| (name_map(func_names@).contains_key(k) || name_map(exports@).contains_key(k))
                        implies (last is Some && k <= last->0) by {
                        lemma_name_map_keys(func_names@, k);
                        lemma_name_map_keys(exports@, k);
                        if name_map(func_names@).contains_key(k) {
                            let i = choose|i: int| 0 <= i < func_names@.len() && (#[trigger] func_names@[i]).0 == k;
                            assert(!is_above(last, func_names@[i].0));
                        } else {
                            let i = choose|i: int| 0 <= i < exports@.len() && (#[trigger] exports@[i]).0 == k;
                            assert(!is_above(last, exports@[i].0));
                        }
                    }
                }
                break;
            },
        };
        let base: &String = match lookup_name(exports, next) {
            Some(s) => s,
            None => match lookup_name(func_names, next) {
                Some(s) => s,
                None => {
                    proof {
                        lemma_name_map_keys(func_names@, next);
                        lemma_name_map_keys(exports@, next);
                    }
                    break;
                },
            },
        };
        let suffix = index_suffix(next);
        let ghost n = result@.len() as int;
        let ghost used_names = names_before(result@, n);
        let ghost target = fresh_name(used_names, base@, suffix@, (n + 1) as nat);
        let mut name = base.clone();
        let mut fuel: usize = result.len();
        loop
            invariant_except_break
                fresh_name(used_names, name@, suffix@, (fuel + 1) as nat) == target,
            invariant
                n == result@.len(),
                used_names == names_before(result@, n),
            ensures
                name@ == target,
            decreases fuel,
        {
            let mut used = false;
            let mut j: usize = 0;
            while j < result.len()
                invariant
                    j <= result@.len(),
                    n == result@.len(),
                    used_names == names_before(result@, n),
                    used <==> exists|t: int| 0 <= t < j && (#[trigger] result@[t]).1@ == name@,
                decreases result@.len() - j,
            {
                if result[j].1 == name {
                    used = true;
                }
                j += 1;
            }
            proof {
                if used {
                    let t = choose|t: int| 0 <= t < n && (#[trigger] result@[t]).1@ == name@;
                    assert(used_names[t] == name@);
                } else {
                    assert forall|t: int| 0 <= t < used_names.len() implies used_names[t] != name@ by {
                        assert(used_names[t] == result@[t].1@);
                    }
                }
            }
            if !used {
                break;
            }
            let ghost prev = name@;
            name.append(suffix.as_str());
            assert(fresh_name(used_names, prev, suffix@, (fuel + 1) as nat) == fresh_name(used_names, name@, suffix@, fuel as nat));
            if fuel == 0 {
                break;
            }
            fuel -= 1;
        }
        proof {
            lemma_count_bound(used_names, base@.len());
            lemma_fresh(used_names, base@, suffix@, (n + 1) as nat);
            assert(!used_names.contains(name@));
        }
        let ghost old_result = result@;
        result.push((next, name));
        proof {
            lemma_name_map_keys(func_names@, next);
            lemma_name_map_keys(exports@, next);
            assert(base_name(func_names@, exports@, next) == base@);
            let n = old_result.len() as int;
            assert forall|t: int| 0 <= t < n implies #[trigger] result@[t] == old_result[t] by {}
            assert forall|i: int| 0 <= i < result@.len() implies (#[trigger] result@[i]).1@
                == unique_name_at(result@, i, base_name(func_names@, exports@, result@[i].0)) by {
                if i < n {
                    assert(result@[i] == old_result[i]);
                    lemma_names_before_prefix(result@, old_result, i);
                } else {
                    lemma_names_before_prefix(result@, old_result, n);
                }
            }
            assert forall|i: int, j: int| 0 <= i < j < result@.len() implies (#[trigger] result@[i]).1@ != (#[trigger] result@[j]).1@ by {
                if j == n {
                    assert(used_names[i] == old_result[i].1@);
                    assert(result@[i] == old_result[i]);
                } else {
                    assert(result@[i] == old_result[i] && result@[j] == old_result[j]);
                }
            }
            assert forall|k: u32| (exists|i: int| 0 <= i < result@.len() && (#[trigger] result@[i]).0 == k)
                <==> ((name_map(func_names@).contains_key(k) || name_map(exports@).contains_key(k)) && k <= next) by {
                lemma_name_map_keys(func_names@, k);
                lemma_name_map_keys(exports@, k);
                if exists|i: int| 0 <= i < result@.len() && (#[trigger] result@[i]).0 == k {
                    let i = choose|i: int| 0 <= i < result@.len() && (#[trigger] result@[i]).0 == k;
                    if i < old_result.len() {
                        assert(old_result[i].0 == k);
                    }
                }
                if (name_map(func_names@).contains_key(k) || name_map(exports@).contains_key(k)) && k <= next {
                    if k < next {
                        assert(last is Some && k <= last->0) by {
                            if is_above(last, k) {
                                if name_map(func_names@).contains_key(k) {
                                    let i = choose|i: int| 0 <= i < func_names@.len() && (#[trigger] func_names@[i]).0 == k;
                                    assert(is_above(last, func_names@[i].0));
                                } else {
                                    let i = choose|i: int| 0 <= i < exports@.len() && (#[trigger] exports@[i]).0 == k;
                                    assert(is_above(last, exports@[i].0));
                                }
                            }
                        }
                        let i = choose|i: int| 0 <= i < old_result.len() && (#[trigger] old_result[i]).0 == k;
                        assert(result@[i].0 == k);
                    } else if k == next {
                        assert(result@[old_result.len() as int].0 == k);
                    }
                }
            }
        }
        last = Some(next);
    }
    result
}

} // verus!
