use vstd::prelude::*;

verus! {

/// A connection attribute: name and value.
pub type Attr = (Seq<char>, Seq<char>);

pub open spec fn attrs_view(v: Seq<(String, String)>) -> Seq<Attr> {
    v.map_values(|a: (String, String)| (a.0@, a.1@))
}

/// The value a list of attributes gives to `name`: the last entry under it wins.
pub open spec fn attr_lookup(s: Seq<Attr>, name: Seq<char>) -> Option<Seq<char>>
    decreases s.len(),
{
    if s.len() == 0 {
        None
    } else if s.last().0 == name {
        Some(s.last().1)
    } else {
        attr_lookup(s.drop_last(), name)
    }
}

/// No name occurs twice.
pub open spec fn distinct_names(s: Seq<Attr>) -> bool {
    forall|i: int, j: int| 0 <= i < j < s.len() ==> s[i].0 != s[j].0
}

proof fn lemma_lookup_distinct(s: Seq<Attr>, name: Seq<char>, i: int)
    requires
        distinct_names(s),
        0 <= i < s.len(),
        s[i].0 == name,
    ensures
        attr_lookup(s, name) == Some(s[i].1),
    decreases s.len(),
{
    if i < s.len() - 1 {
        let init = s.drop_last();
        assert(s.last().0 != name);
        assert(distinct_names(init));
        assert(init[i] == s[i]);
        lemma_lookup_distinct(init, name, i);
    }
}

proof fn lemma_lookup_absent(s: Seq<Attr>, name: Seq<char>)
    requires
        forall|i: int| 0 <= i < s.len() ==> s[i].0 != name,
    ensures
        attr_lookup(s, name).is_none(),
    decreases s.len(),
{
    if s.len() > 0 {
        let init = s.drop_last();
        assert forall|i: int| 0 <= i < init.len() implies init[i].0 != name by {
            assert(init[i] == s[i]);
        }
        lemma_lookup_absent(init, name);
    }
}

proof fn lemma_lookup_update(s: Seq<Attr>, i: int, a: Attr, name: Seq<char>)
    requires
        distinct_names(s),
        0 <= i < s.len(),
        s[i].0 == a.0,
    ensures
        distinct_names(s.update(i, a)),
        attr_lookup(s.update(i, a), name) == if name == a.0 {
            Some(a.1)
        } else {
            attr_lookup(s, name)
        },
{
    let t = s.update(i, a);
    assert(distinct_names(t)) by {
        assert forall|x: int, y: int| 0 <= x < y < t.len() implies t[x].0 != t[y].0 by {
            assert(t[x].0 == s[x].0 && t[y].0 == s[y].0);
        }
    }
    if name == a.0 {
        lemma_lookup_distinct(t, name, i);
    } else if exists|j: int| 0 <= j < s.len() && s[j].0 == name {
        let j = choose|j: int| 0 <= j < s.len() && s[j].0 == name;
        assert(t[j] == s[j]);
        lemma_lookup_distinct(t, name, j);
        lemma_lookup_distinct(s, name, j);
    } else {
        assert forall|j: int| 0 <= j < t.len() implies t[j].0 != name by {
            assert(t[j].0 == s[j].0);
        }
        lemma_lookup_absent(t, name);
        lemma_lookup_absent(s, name);
    }
}

proof fn lemma_lookup_push(s: Seq<Attr>, a: Attr, name: Seq<char>)
    ensures
        attr_lookup(s.push(a), name) == if a.0 == name {
            Some(a.1)
        } else {
            attr_lookup(s, name)
        },
{
    assert(s.push(a).drop_last() =~= s);
}

/// Sets `item` in a list of attributes with distinct names, replacing an entry of the
/// same name or adding one.
fn upsert(r: &mut Vec<(String, String)>, item: &(String, String))
    requires
        distinct_names(attrs_view(old(r)@)),
    ensures
        distinct_names(attrs_view(final(r)@)),
        forall|name: Seq<char>|
            #[trigger] attr_lookup(attrs_view(final(r)@), name) == attr_lookup(
                attrs_view(old(r)@).push((item.0@, item.1@)),
                name,
            ),
{
    let ghost a: Attr = (item.0@, item.1@);
    let ghost before = attrs_view(r@);
    let mut i: usize = 0;
    while i < r.len() && !(r[i].0 == item.0)
        invariant
            i <= r@.len(),
            before == attrs_view(r@),
            forall|j: int| 0 <= j < i ==> before[j].0 != a.0,
            a.0 == item.0@,
        decreases r@.len() - i,
    {
        i = i + 1;
    }
    let entry = (item.0.clone(), item.1.clone());
    if i < r.len() {
        r.set(i, entry);
        proof {
            assert(attrs_view(r@) =~= before.update(i as int, a));
            assert forall|name: Seq<char>| #[trigger]
                attr_lookup(attrs_view(r@), name) == attr_lookup(before.push(a), name) by {
                lemma_lookup_update(before, i as int, a, name);
                lemma_lookup_push(before, a, name);
            }
            lemma_lookup_update(before, i as int, a, a.0);
        }
    } else {
        r.push(entry);
        proof {
            let t = before.push(a);
            assert(attrs_view(r@) =~= t);
            assert forall|x: int, y: int| 0 <= x < y < t.len() implies t[x].0 != t[y].0 by {
                if y == t.len() - 1 {
                    assert(t[x] == before[x]);
                } else {
                    assert(t[x] == before[x] && t[y] == before[y]);
                }
            }
        }
    }
}

fn upsert_all(r: &mut Vec<(String, String)>, items: &Vec<(String, String)>)
    requires
        distinct_names(attrs_view(old(r)@)),
    ensures
        distinct_names(attrs_view(final(r)@)),
        forall|name: Seq<char>|
            #[trigger] attr_lookup(attrs_view(final(r)@), name) == attr_lookup(
                attrs_view(old(r)@) + attrs_view(items@),
                name,
            ),
{
    let ghost start = attrs_view(r@);
    let mut k: usize = 0;
    proof {
        assert(start + attrs_view(items@).subrange(0, 0) =~= start);
    }
    while k < items.len()
        invariant
            k <= items@.len(),
            distinct_names(attrs_view(r@)),
            forall|name: Seq<char>|
                #[trigger] attr_lookup(attrs_view(r@), name) == attr_lookup(
                    start + attrs_view(items@).subrange(0, k as int),
                    name,
                ),
        decreases items@.len() - k,
    {
        let ghost prev = attrs_view(r@);
        upsert(r, &items[k]);
        proof {
            let a = (items@[k as int].0@, items@[k as int].1@);
            let pre = start + attrs_view(items@).subrange(0, k as int);
            assert(start + attrs_view(items@).subrange(0, k as int + 1) =~= pre.push(a));
            assert forall|name: Seq<char>| #[trigger]
                attr_lookup(attrs_view(r@), name) == attr_lookup(pre.push(a), name) by {
                lemma_lookup_push(prev, a, name);
                lemma_lookup_push(pre, a, name);
            }
        }
        k = k + 1;
    }
    proof {
        assert(attrs_view(items@).subrange(0, items@.len() as int) =~= attrs_view(items@));
    }
}

/// Merges connection attributes: the caller's entries override the defaults of the same
/// name, and each name occurs once in the result.
pub fn merge_attrs(defaults: &Vec<(String, String)>, user: &Vec<(String, String)>) -> (r: Vec<
    (String, String),
>)
    ensures
        distinct_names(attrs_view(r@)),
        forall|name: Seq<char>|
            #[trigger] attr_lookup(attrs_view(r@), name) == attr_lookup(
                attrs_view(defaults@) + attrs_view(user@),
                name,
            ),
{
    let mut r: Vec<(String, String)> = Vec::new();
    proof {
        assert(attrs_view(r@) =~= Seq::<Attr>::empty());
    }
    upsert_all(&mut r, defaults);
    let ghost mid = attrs_view(r@);
    upsert_all(&mut r, user);
    proof {
        assert(Seq::<Attr>::empty() + attrs_view(defaults@) =~= attrs_view(defaults@));
        assert forall|name: Seq<char>| #[trigger]
            attr_lookup(attrs_view(r@), name) == attr_lookup(
                attrs_view(defaults@) + attrs_view(user@),
                name,
            ) by {
            lemma_lookup_concat(mid, attrs_view(defaults@), attrs_view(user@), name);
        }
    }
    r
}

/// Lists that give every name the same value keep doing so when the same entries follow.
proof fn lemma_lookup_concat(a: Seq<Attr>, b: Seq<Attr>, c: Seq<Attr>, name: Seq<char>)
    requires
        forall|n: Seq<char>| #[trigger] attr_lookup(a, n) == attr_lookup(b, n),
    ensures
        attr_lookup(a + c, name) == attr_lookup(b + c, name),
    decreases c.len(),
{
    if c.len() > 0 {
        lemma_lookup_concat(a, b, c.drop_last(), name);
        assert((a + c).drop_last() =~= a + c.drop_last());
        assert((b + c).drop_last() =~= b + c.drop_last());
        assert(attr_lookup(a, name) == attr_lookup(b, name));
    } else {
        assert(a + c =~= a);
        assert(b + c =~= b);
        assert(attr_lookup(a, name) == attr_lookup(b, name));
    }
}

} // verus!
