//! A JSON-like settings value, its mathematical model, deep-merge, and
//! the augmentation-mode resolution read from user settings.
//!
//! Objects are association lists; lookup takes the first entry with a
//! matching key.  Deep-merge recurses where both sides hold mappings
//! and lets the overlay win everywhere else.

use crate::text::str_eq;
use vstd::prelude::*;
use vstd::string::StringExecFns;

verus! {

/// A settings value: null, a boolean, an integer, a string, an array,
/// or a mapping given as an ordered association list.
pub enum Json {
    Null,
    Bool(bool),
    Int(i64),
    Str(String),
    Arr(Vec<Json>),
    Obj(Vec<(String, Json)>),
}

/// The mathematical model of a settings value.
#[verifier::ext_equal]
pub enum Jv {
    Null,
    Bool(bool),
    Int(int),
    Str(Seq<char>),
    Arr(Seq<Jv>),
    Obj(Seq<(Seq<char>, Jv)>),
}

/// The model of a value.
pub open spec fn jv(v: Json) -> Jv
    decreases v,
{
    match v {
        Json::Null => Jv::Null,
        Json::Bool(b) => Jv::Bool(b),
        Json::Int(i) => Jv::Int(i as int),
        Json::Str(s) => Jv::Str(s@),
        Json::Arr(a) => Jv::Arr(jv_list(a@)),
        Json::Obj(m) => Jv::Obj(jv_entries(m@)),
    }
}

/// The models of a list of values.
pub open spec fn jv_list(s: Seq<Json>) -> Seq<Jv>
    decreases s,
{
    if s.len() == 0 {
        Seq::empty()
    } else {
        seq![jv(s[0])] + jv_list(s.subrange(1, s.len() as int))
    }
}

/// The models of the entries of a mapping.
pub open spec fn jv_entries(s: Seq<(String, Json)>) -> Seq<(Seq<char>, Jv)>
    decreases s,
{
    if s.len() == 0 {
        Seq::empty()
    } else {
        seq![(s[0].0@, jv(s[0].1))] + jv_entries(s.subrange(1, s.len() as int))
    }
}

pub proof fn lemma_jv_list_props(s: Seq<Json>)
    ensures
        jv_list(s).len() == s.len(),
        forall|i: int| 0 <= i < s.len() ==> #[trigger] jv_list(s)[i] == jv(s[i]),
    decreases s.len(),
{
    if s.len() > 0 {
        lemma_jv_list_props(s.subrange(1, s.len() as int));
    }
}

pub proof fn lemma_jv_entries_props(s: Seq<(String, Json)>)
    ensures
        jv_entries(s).len() == s.len(),
        forall|i: int|
            0 <= i < s.len() ==> #[trigger] jv_entries(s)[i] == (s[i].0@, jv(s[i].1)),
    decreases s.len(),
{
    if s.len() > 0 {
        lemma_jv_entries_props(s.subrange(1, s.len() as int));
    }
}

pub proof fn lemma_jv_list_push(s: Seq<Json>, x: Json)
    ensures
        jv_list(s.push(x)) == jv_list(s) + seq![jv(x)],
    decreases s.len(),
{
    if s.len() == 0 {
        let one = s.push(x);
        assert(one.len() == 1);
        assert(one[0] == x);
        assert(one.subrange(1, 1) =~= Seq::<Json>::empty());
        assert(jv_list(Seq::<Json>::empty()) == Seq::<Jv>::empty());
        assert(jv_list(one) == seq![jv(x)] + jv_list(one.subrange(1, 1)));
        assert(jv_list(s) == Seq::<Jv>::empty());
        assert(jv_list(s.push(x)) =~= jv_list(s) + seq![jv(x)]);
    } else {
        assert(s.push(x).subrange(1, s.len() as int + 1) =~= s.subrange(1, s.len() as int).push(x));
        lemma_jv_list_push(s.subrange(1, s.len() as int), x);
        assert(jv_list(s.push(x)) =~= jv_list(s) + seq![jv(x)]);
    }
}

pub proof fn lemma_jv_entries_push(s: Seq<(String, Json)>, x: (String, Json))
    ensures
        jv_entries(s.push(x)) == jv_entries(s) + seq![(x.0@, jv(x.1))],
    decreases s.len(),
{
    if s.len() == 0 {
        let one = s.push(x);
        assert(one.len() == 1);
        assert(one[0] == x);
        assert(one.subrange(1, 1) =~= Seq::<(String, Json)>::empty());
        assert(jv_entries(Seq::<(String, Json)>::empty()) == Seq::<(Seq<char>, Jv)>::empty());
        assert(jv_entries(one) == seq![(x.0@, jv(x.1))] + jv_entries(one.subrange(1, 1)));
        assert(jv_entries(s) == Seq::<(Seq<char>, Jv)>::empty());
        assert(jv_entries(s.push(x)) =~= jv_entries(s) + seq![(x.0@, jv(x.1))]);
    } else {
        assert(s.push(x).subrange(1, s.len() as int + 1) =~= s.subrange(1, s.len() as int).push(x));
        lemma_jv_entries_push(s.subrange(1, s.len() as int), x);
        assert(jv_entries(s.push(x)) =~= jv_entries(s) + seq![(x.0@, jv(x.1))]);
    }
}

/// Some entry of the mapping bears this key.
pub open spec fn obj_has(m: Seq<(Seq<char>, Jv)>, k: Seq<char>) -> bool {
    exists|i: int| 0 <= i < m.len() && m[i].0 == k
}

/// The value of the first entry bearing this key; null when none does.
pub open spec fn obj_get(m: Seq<(Seq<char>, Jv)>, k: Seq<char>) -> Jv
    decreases m.len(),
{
    if m.len() == 0 {
        Jv::Null
    } else if m[0].0 == k {
        m[0].1
    } else {
        obj_get(m.subrange(1, m.len() as int), k)
    }
}

/// A mapping without the key looks up to null.
pub proof fn lemma_obj_get_absent(m: Seq<(Seq<char>, Jv)>, k: Seq<char>)
    requires
        !obj_has(m, k),
    ensures
        obj_get(m, k) == Jv::Null,
    decreases m.len(),
{
    if m.len() > 0 {
        let t = m.subrange(1, m.len() as int);
        assert forall|i: int| 0 <= i < t.len() implies t[i].0 != k by {
            assert(m[i + 1].0 == t[i].0);
        }
        lemma_obj_get_absent(t, k);
    }
}

/// String values, as JSON strings.
pub open spec fn str_items(s: Seq<Seq<char>>) -> Seq<Jv> {
    Seq::new(s.len(), |i: int| Jv::Str(s[i]))
}

/// When some entry bears the key, the first lookup result is the value
/// of some entry bearing it.
pub proof fn lemma_obj_get_is_element(m: Seq<(Seq<char>, Jv)>, k: Seq<char>)
    requires
        obj_has(m, k),
    ensures
        exists|j: int| 0 <= j < m.len() && m[j].0 == k && obj_get(m, k) == m[j].1,
    decreases m.len(),
{
    if m.len() > 0 && m[0].0 != k {
        let tail = m.subrange(1, m.len() as int);
        let w = choose|i: int| 0 <= i < m.len() && m[i].0 == k;
        assert(tail[w - 1].0 == k);
        lemma_obj_get_is_element(tail, k);
        let j = choose|j: int| 0 <= j < tail.len() && tail[j].0 == k && obj_get(tail, k) == tail[j].1;
        assert(m[j + 1].0 == k && obj_get(m, k) == m[j + 1].1);
    }
}

/// First-match lookup: the value at the first index bearing the key.
pub proof fn lemma_obj_get_first(m: Seq<(Seq<char>, Jv)>, k: Seq<char>, j: int)
    requires
        0 <= j < m.len(),
        m[j].0 == k,
        forall|l: int| 0 <= l < j ==> m[l].0 != k,
    ensures
        obj_get(m, k) == m[j].1,
    decreases m.len(),
{
    if j > 0 {
        let tail = m.subrange(1, m.len() as int);
        lemma_obj_get_first(tail, k, j - 1);
    }
}

/// Finds the first entry of a mapping bearing a key.
pub fn obj_find(m: &Vec<(String, Json)>, k: &str) -> (r: Option<usize>)
    ensures
        match r {
            Some(j) => {
                &&& 0 <= j < m@.len()
                &&& jv_entries(m@)[j as int].0 == k@
                &&& forall|l: int| 0 <= l < j ==> jv_entries(m@)[l].0 != k@
                &&& obj_get(jv_entries(m@), k@) == jv_entries(m@)[j as int].1
            },
            None => !obj_has(jv_entries(m@), k@),
        },
{
    proof {
        lemma_jv_entries_props(m@);
    }
    let n = m.len();
    let mut i: usize = 0;
    while i < n
        invariant
            n == m@.len(),
            0 <= i <= n,
            jv_entries(m@).len() == n,
            forall|l: int| 0 <= l < n ==> #[trigger] jv_entries(m@)[l] == (m@[l].0@, jv(m@[l].1)),
            forall|l: int| 0 <= l < i ==> jv_entries(m@)[l].0 != k@,
        decreases n - i,
    {
        if str_eq(m[i].0.as_str(), k) {
            proof {
                lemma_obj_get_first(jv_entries(m@), k@, i as int);
            }
            return Some(i);
        }
        i = i + 1;
    }
    proof {
        assert forall|l: int| 0 <= l < jv_entries(m@).len() implies jv_entries(m@)[l].0 != k@ by {}
    }
    None
}

/// A reference to the value of the first entry bearing the key.
pub fn get_key<'a>(m: &'a Vec<(String, Json)>, k: &str) -> (r: Option<&'a Json>)
    ensures
        match r {
            Some(x) => obj_has(jv_entries(m@), k@) && jv(*x) == obj_get(jv_entries(m@), k@),
            None => !obj_has(jv_entries(m@), k@),
        },
{
    proof {
        lemma_jv_entries_props(m@);
    }
    match obj_find(m, k) {
        Some(j) => Some(&m[j].1),
        None => None,
    }
}

/// The deep merge of two values: where both are mappings the entries
/// are merged key by key; everywhere else the overlay wins.
pub open spec fn merge_values(b: Jv, o: Jv) -> Jv
    decreases o, 0int,
{
    match b {
        Jv::Obj(bm) => match o {
            Jv::Obj(om) => Jv::Obj(merged_obj(bm, om)),
            _ => o,
        },
        _ => o,
    }
}

/// The entries of a merged mapping: the base's entries in order, each
/// merged with the overlay's value for its key where one exists,
/// followed by the overlay's entries whose keys the base lacks.
pub open spec fn merged_obj(
    bm: Seq<(Seq<char>, Jv)>,
    om: Seq<(Seq<char>, Jv)>,
) -> Seq<(Seq<char>, Jv)>
    decreases om, bm.len() + 1,
{
    merge_entries(bm, om) + obj_extras(bm, om)
}

/// The value of one merged entry: the deep merge with the overlay's
/// value for the key when the overlay has it, the base's value alone
/// otherwise.
pub open spec fn merge_one(e: (Seq<char>, Jv), om: Seq<(Seq<char>, Jv)>) -> Jv
    decreases om, 0int,
    via merge_one_dec
{
    if obj_has(om, e.0) {
        merge_values(e.1, obj_get(om, e.0))
    } else {
        e.1
    }
}

#[via_fn]
proof fn merge_one_dec(e: (Seq<char>, Jv), om: Seq<(Seq<char>, Jv)>) {
    if obj_has(om, e.0) {
        lemma_obj_get_is_element(om, e.0);
        let j = choose|j: int|
            0 <= j < om.len() && om[j].0 == e.0 && obj_get(om, e.0) == om[j].1;
        assert(decreases_to!(om => om[j]));
        assert(decreases_to!(om[j] => om[j].1));
        assert(decreases_to!(om => obj_get(om, e.0)));
    }
}

/// The base's entries after the merge, in order.
pub open spec fn merge_entries(
    bm: Seq<(Seq<char>, Jv)>,
    om: Seq<(Seq<char>, Jv)>,
) -> Seq<(Seq<char>, Jv)>
    decreases om, bm.len(),
{
    if bm.len() == 0 {
        Seq::empty()
    } else {
        seq![(bm[0].0, merge_one(bm[0], om))] + merge_entries(
            bm.subrange(1, bm.len() as int),
            om,
        )
    }
}

/// The overlay's entries whose keys the base lacks, in order.
pub open spec fn obj_extras(
    bm: Seq<(Seq<char>, Jv)>,
    om: Seq<(Seq<char>, Jv)>,
) -> Seq<(Seq<char>, Jv)>
    decreases om.len(),
{
    if om.len() == 0 {
        Seq::empty()
    } else {
        (if obj_has(bm, om[0].0) {
            Seq::empty()
        } else {
            seq![om[0]]
        }) + obj_extras(bm, om.subrange(1, om.len() as int))
    }
}

/// Key membership and first-match lookup distribute over
/// concatenation of entry lists.
pub proof fn lemma_obj_append(
    a: Seq<(Seq<char>, Jv)>,
    b: Seq<(Seq<char>, Jv)>,
    k: Seq<char>,
)
    ensures
        obj_has(a + b, k) == (obj_has(a, k) || obj_has(b, k)),
        obj_get(a + b, k) == if obj_has(a, k) {
            obj_get(a, k)
        } else {
            obj_get(b, k)
        },
    decreases a.len(),
{
    if a.len() == 0 {
        assert(a + b =~= b);
    } else {
        let t = a.subrange(1, a.len() as int);
        assert((a + b).subrange(1, (a + b).len() as int) =~= t + b);
        lemma_obj_append(t, b, k);
        if obj_has(a, k) {
            let i = choose|i: int| 0 <= i < a.len() && a[i].0 == k;
            assert((a + b)[i] == a[i]);
            if a[0].0 != k {
                assert(t[i - 1].0 == k);
            }
        }
        if obj_has(b, k) {
            let i = choose|i: int| 0 <= i < b.len() && b[i].0 == k;
            assert((a + b)[a.len() + i] == b[i]);
        }
        if obj_has(a + b, k) {
            let i = choose|i: int| 0 <= i < (a + b).len() && (a + b)[i].0 == k;
            if i < a.len() {
                assert(a[i].0 == k);
            } else {
                assert(b[i - a.len()].0 == k);
            }
        }
        if obj_has(t, k) {
            let i = choose|i: int| 0 <= i < t.len() && t[i].0 == k;
            assert(a[i + 1].0 == k);
        }
        assert((a + b)[0] == a[0]);
    }
}

/// The merged base entries keep the base's keys, in order, and carry
/// the merged values.
pub proof fn lemma_merge_entries_elems(bm: Seq<(Seq<char>, Jv)>, om: Seq<(Seq<char>, Jv)>)
    ensures
        merge_entries(bm, om).len() == bm.len(),
        forall|i: int|
            0 <= i < bm.len() ==> #[trigger] merge_entries(bm, om)[i] == (
                bm[i].0,
                merge_one(bm[i], om),
            ),
    decreases bm.len(),
{
    if bm.len() > 0 {
        lemma_merge_entries_elems(bm.subrange(1, bm.len() as int), om);
    }
}

/// The merged base entries bear exactly the base's keys.
pub proof fn lemma_merge_entries_keys(
    bm: Seq<(Seq<char>, Jv)>,
    om: Seq<(Seq<char>, Jv)>,
    k: Seq<char>,
)
    ensures
        obj_has(merge_entries(bm, om), k) == obj_has(bm, k),
{
    lemma_merge_entries_elems(bm, om);
    if obj_has(bm, k) {
        let i = choose|i: int| 0 <= i < bm.len() && bm[i].0 == k;
        assert(merge_entries(bm, om)[i].0 == k);
    }
    if obj_has(merge_entries(bm, om), k) {
        let i = choose|i: int|
            0 <= i < merge_entries(bm, om).len() && merge_entries(bm, om)[i].0 == k;
        assert(bm[i].0 == k);
    }
}

/// Looking a key up in the merged base entries gives the merge of the
/// base's first value for it with the overlay's.
pub proof fn lemma_merge_get(
    bm: Seq<(Seq<char>, Jv)>,
    om: Seq<(Seq<char>, Jv)>,
    k: Seq<char>,
)
    requires
        obj_has(bm, k),
    ensures
        obj_get(merge_entries(bm, om), k) == merge_one((k, obj_get(bm, k)), om),
    decreases bm.len(),
{
    let me = merge_entries(bm, om);
    lemma_merge_entries_elems(bm, om);
    if bm[0].0 == k {
        assert(me[0] == (bm[0].0, merge_one(bm[0], om)));
        assert(bm[0] == (k, bm[0].1));
        assert(obj_get(bm, k) == bm[0].1);
    } else {
        let t = bm.subrange(1, bm.len() as int);
        let i = choose|i: int| 0 <= i < bm.len() && bm[i].0 == k;
        assert(t[i - 1].0 == k);
        lemma_merge_get(t, om, k);
        assert(me.subrange(1, me.len() as int) =~= merge_entries(t, om));
        assert(obj_get(me, k) == obj_get(merge_entries(t, om), k));
        assert(obj_get(bm, k) == obj_get(t, k));
    }
}

/// The extra entries bear exactly the overlay's keys that the base
/// lacks, with the overlay's values.
pub proof fn lemma_extras(
    bm: Seq<(Seq<char>, Jv)>,
    om: Seq<(Seq<char>, Jv)>,
    k: Seq<char>,
)
    ensures
        obj_has(obj_extras(bm, om), k) == (obj_has(om, k) && !obj_has(bm, k)),
        obj_has(om, k) && !obj_has(bm, k) ==> obj_get(obj_extras(bm, om), k) == obj_get(om, k),
    decreases om.len(),
{
    if om.len() > 0 {
        let e = om[0];
        let t = om.subrange(1, om.len() as int);
        lemma_extras(bm, t, k);
        if obj_has(om, k) && k != e.0 {
            let i = choose|i: int| 0 <= i < om.len() && om[i].0 == k;
            assert(t[i - 1].0 == k);
        }
        if obj_has(t, k) {
            let i = choose|i: int| 0 <= i < t.len() && t[i].0 == k;
            assert(om[i + 1].0 == k);
        }
        if obj_has(bm, e.0) {
            assert(obj_extras(bm, om) =~= obj_extras(bm, t));
            if k == e.0 {
                assert(!(obj_has(om, k) && !obj_has(bm, k)));
            }
        } else {
            lemma_obj_append(seq![e], obj_extras(bm, t), k);
            assert(obj_extras(bm, om) =~= seq![e] + obj_extras(bm, t));
            if k == e.0 {
                assert(obj_has(seq![e], k)) by {
                    assert(seq![e][0].0 == k);
                }
                assert(obj_get(seq![e], k) == e.1);
                assert(obj_get(om, k) == e.1);
            } else {
                assert(!obj_has(seq![e], k)) by {
                    if obj_has(seq![e], k) {
                        let i = choose|i: int| 0 <= i < 1 && seq![e][i].0 == k;
                        assert(seq![e][0].0 == k);
                    }
                }
            }
        }
    }
}

/// Deep-merging an overlay whose keys are all new preserves every
/// original key with its value and adds the overlay's keys with
/// theirs: the merged mapping's key set is the union of the two.
pub proof fn lemma_merge_disjoint(bm: Seq<(Seq<char>, Jv)>, om: Seq<(Seq<char>, Jv)>)
    requires
        forall|i: int| 0 <= i < om.len() ==> !obj_has(bm, #[trigger] om[i].0),
    ensures
        forall|k: Seq<char>|
            #[trigger] obj_has(merged_obj(bm, om), k) <==> obj_has(bm, k) || obj_has(om, k),
        forall|k: Seq<char>|
            #[trigger] obj_has(bm, k) ==> obj_get(merged_obj(bm, om), k) == obj_get(bm, k),
        forall|k: Seq<char>|
            #[trigger] obj_has(om, k) ==> obj_get(merged_obj(bm, om), k) == obj_get(om, k),
{
    assert forall|k: Seq<char>| true implies (#[trigger] obj_has(merged_obj(bm, om), k) <==>
    obj_has(bm, k) || obj_has(om, k)) by {
        lemma_obj_append(merge_entries(bm, om), obj_extras(bm, om), k);
        lemma_merge_entries_keys(bm, om, k);
        lemma_extras(bm, om, k);
    }
    assert forall|k: Seq<char>| #[trigger] obj_has(bm, k) implies obj_get(merged_obj(bm, om), k)
        == obj_get(bm, k) by {
        lemma_obj_append(merge_entries(bm, om), obj_extras(bm, om), k);
        lemma_merge_entries_keys(bm, om, k);
        lemma_merge_get(bm, om, k);
        if obj_has(om, k) {
            let i = choose|i: int| 0 <= i < om.len() && om[i].0 == k;
            assert(!obj_has(bm, om[i].0));
        }
    }
    assert forall|k: Seq<char>| #[trigger] obj_has(om, k) implies obj_get(merged_obj(bm, om), k)
        == obj_get(om, k) by {
        lemma_obj_append(merge_entries(bm, om), obj_extras(bm, om), k);
        lemma_merge_entries_keys(bm, om, k);
        lemma_extras(bm, om, k);
        let i = choose|i: int| 0 <= i < om.len() && om[i].0 == k;
        assert(!obj_has(bm, om[i].0));
        assert(!obj_has(bm, k));
    }
}

/// Deep-merge overwrites leaves with the overlay's value and recurses
/// where both sides hold mappings: for a key both mappings bear, the
/// merged value is the deep merge of the two values — which is the
/// overlay's value outright whenever the two are not both mappings.
pub proof fn lemma_merge_common_key(
    bm: Seq<(Seq<char>, Jv)>,
    om: Seq<(Seq<char>, Jv)>,
    k: Seq<char>,
)
    requires
        obj_has(bm, k),
        obj_has(om, k),
    ensures
        obj_get(merged_obj(bm, om), k) == merge_values(obj_get(bm, k), obj_get(om, k)),
        !(obj_get(bm, k) is Obj && obj_get(om, k) is Obj) ==> obj_get(merged_obj(bm, om), k)
            == obj_get(om, k),
{
    lemma_obj_append(merge_entries(bm, om), obj_extras(bm, om), k);
    lemma_merge_entries_keys(bm, om, k);
    lemma_merge_get(bm, om, k);
}

pub proof fn lemma_merge_entries_push(
    bm: Seq<(Seq<char>, Jv)>,
    om: Seq<(Seq<char>, Jv)>,
    e: (Seq<char>, Jv),
)
    ensures
        merge_entries(bm.push(e), om) == merge_entries(bm, om) + seq![(e.0, merge_one(e, om))],
    decreases bm.len(),
{
    if bm.len() == 0 {
        let one = bm.push(e);
        assert(one.len() == 1);
        assert(one[0] == e);
        assert(one.subrange(1, 1) =~= Seq::<(Seq<char>, Jv)>::empty());
        assert(merge_entries(Seq::<(Seq<char>, Jv)>::empty(), om) == Seq::<(
            Seq<char>,
            Jv,
        )>::empty());
        assert(merge_entries(one, om) == seq![(e.0, merge_one(e, om))] + merge_entries(
            one.subrange(1, 1),
            om,
        ));
        assert(merge_entries(bm.push(e), om) =~= merge_entries(bm, om) + seq![
            (e.0, merge_one(e, om)),
        ]);
    } else {
        assert(bm.push(e)[0] == bm[0]);
        assert(bm.push(e).subrange(1, bm.len() as int + 1) =~= bm.subrange(
            1,
            bm.len() as int,
        ).push(e));
        lemma_merge_entries_push(bm.subrange(1, bm.len() as int), om, e);
        assert(merge_entries(bm.push(e), om) =~= merge_entries(bm, om) + seq![
            (e.0, merge_one(e, om)),
        ]);
    }
}

pub proof fn lemma_extras_push(
    bm: Seq<(Seq<char>, Jv)>,
    om: Seq<(Seq<char>, Jv)>,
    e: (Seq<char>, Jv),
)
    ensures
        obj_extras(bm, om.push(e)) == obj_extras(bm, om) + (if obj_has(bm, e.0) {
            Seq::<(Seq<char>, Jv)>::empty()
        } else {
            seq![e]
        }),
    decreases om.len(),
{
    if om.len() == 0 {
        let one = om.push(e);
        assert(one.len() == 1);
        assert(one[0] == e);
        assert(one.subrange(1, 1) =~= Seq::<(Seq<char>, Jv)>::empty());
        assert(obj_extras(bm, Seq::<(Seq<char>, Jv)>::empty()) == Seq::<(
            Seq<char>,
            Jv,
        )>::empty());
        assert(obj_extras(bm, one) == (if obj_has(bm, e.0) {
            Seq::<(Seq<char>, Jv)>::empty()
        } else {
            seq![e]
        }) + obj_extras(bm, one.subrange(1, 1)));
        assert(obj_extras(bm, om.push(e)) =~= obj_extras(bm, om) + (if obj_has(bm, e.0) {
            Seq::<(Seq<char>, Jv)>::empty()
        } else {
            seq![e]
        }));
    } else {
        assert(om.push(e)[0] == om[0]);
        assert(om.push(e).subrange(1, om.len() as int + 1) =~= om.subrange(
            1,
            om.len() as int,
        ).push(e));
        lemma_extras_push(bm, om.subrange(1, om.len() as int), e);
        assert(obj_extras(bm, om.push(e)) =~= obj_extras(bm, om) + (if obj_has(bm, e.0) {
            Seq::<(Seq<char>, Jv)>::empty()
        } else {
            seq![e]
        }));
    }
}

/// The deep merge of two values: entries are merged key by key where
/// both sides hold mappings, the overlay wins everywhere else, and
/// overlay keys the base lacks are appended in order.
#[verifier::loop_isolation(false)]
pub fn deep_merge(base: &Json, overlay: &Json) -> (r: Json)
    ensures
        jv(r) == merge_values(jv(*base), jv(*overlay)),
    decreases *overlay,
{
    match (base, overlay) {
        (Json::Obj(bm), Json::Obj(om)) => {
            let ghost ev_b = jv_entries(bm@);
            let ghost ev_o = jv_entries(om@);
            proof {
                lemma_jv_entries_props(bm@);
                lemma_jv_entries_props(om@);
            }
            let mut out: Vec<(String, Json)> = Vec::new();
            let nb = bm.len();
            let mut i: usize = 0;
            proof {
                assert(ev_b.take(0) =~= Seq::<(Seq<char>, Jv)>::empty());
                assert(jv_entries(out@) =~= merge_entries(ev_b.take(0), ev_o));
            }
            while i < nb
                invariant
                    0 <= i <= nb,
                    jv_entries(out@) == merge_entries(ev_b.take(i as int), ev_o),
                decreases nb - i,
            {
                let merged: Json;
                match obj_find(om, bm[i].0.as_str()) {
                    Some(j) => {
                        proof {
                            assert((*overlay)->Obj_0 == *om);
                            assert(decreases_to!(*overlay => (*overlay)->Obj_0));
                            assert(decreases_to!(*om => om@));
                            assert(decreases_to!(om@ => om@[j as int]));
                            assert(decreases_to!(om@[j as int] => om@[j as int].1));
                            assert(decreases_to!(*overlay => om@[j as int].1));
                        }
                        merged = deep_merge(&bm[i].1, &om[j].1);
                        proof {
                            assert(ev_o[j as int].0 == bm@[i as int].0@);
                            assert(obj_has(ev_o, ev_b[i as int].0));
                            assert(obj_get(ev_o, ev_b[i as int].0) == jv(om@[j as int].1));
                            assert(jv(merged) == merge_one(ev_b[i as int], ev_o));
                        }
                    },
                    None => {
                        merged = duplicate(&bm[i].1);
                        proof {
                            assert(!obj_has(ev_o, ev_b[i as int].0));
                            assert(jv(merged) == merge_one(ev_b[i as int], ev_o));
                        }
                    },
                }
                let key_copy = String::from_str(bm[i].0.as_str());
                let ghost old_out = out@;
                out.push((key_copy, merged));
                proof {
                    assert(out@ =~= old_out.push((key_copy, merged)));
                    lemma_jv_entries_push(old_out, (key_copy, merged));
                    lemma_merge_entries_push(ev_b.take(i as int), ev_o, ev_b[i as int]);
                    assert(ev_b.take(i + 1) =~= ev_b.take(i as int).push(ev_b[i as int]));
                    assert(jv_entries(out@) =~= merge_entries(ev_b.take(i + 1), ev_o));
                }
                i = i + 1;
            }
            proof {
                assert(ev_b.take(nb as int) =~= ev_b);
            }
            let no = om.len();
            let mut j: usize = 0;
            proof {
                assert(ev_o.take(0) =~= Seq::<(Seq<char>, Jv)>::empty());
                assert(obj_extras(ev_b, ev_o.take(0)) == Seq::<(Seq<char>, Jv)>::empty());
                assert(jv_entries(out@) =~= merge_entries(ev_b, ev_o) + obj_extras(
                    ev_b,
                    ev_o.take(0),
                ));
            }
            while j < no
                invariant
                    0 <= j <= no,
                    jv_entries(out@) == merge_entries(ev_b, ev_o) + obj_extras(
                        ev_b,
                        ev_o.take(j as int),
                    ),
                decreases no - j,
            {
                proof {
                    assert(ev_o.take(j + 1) =~= ev_o.take(j as int).push(ev_o[j as int]));
                    lemma_extras_push(ev_b, ev_o.take(j as int), ev_o[j as int]);
                }
                match obj_find(bm, om[j].0.as_str()) {
                    Some(l) => {
                        proof {
                            assert(ev_b[l as int].0 == ev_o[j as int].0);
                            assert(obj_has(ev_b, ev_o[j as int].0));
                            assert(jv_entries(out@) =~= merge_entries(ev_b, ev_o) + obj_extras(
                                ev_b,
                                ev_o.take(j + 1),
                            ));
                        }
                    },
                    None => {
                        let key_copy = String::from_str(om[j].0.as_str());
                        let val_copy = duplicate(&om[j].1);
                        let ghost old_out = out@;
                        out.push((key_copy, val_copy));
                        proof {
                            assert(!obj_has(ev_b, ev_o[j as int].0));
                            assert(out@ =~= old_out.push((key_copy, val_copy)));
                            lemma_jv_entries_push(old_out, (key_copy, val_copy));
                            assert((key_copy@, jv(val_copy)) == ev_o[j as int]);
                            assert(jv_entries(out@) =~= merge_entries(ev_b, ev_o) + obj_extras(
                                ev_b,
                                ev_o.take(j + 1),
                            ));
                        }
                    },
                }
                j = j + 1;
            }
            proof {
                assert(ev_o.take(no as int) =~= ev_o);
                assert(jv_entries(out@) == merged_obj(ev_b, ev_o));
            }
            Json::Obj(out)
        },
        _ => duplicate(overlay),
    }
}

/// A deep copy, model for model.
#[verifier::loop_isolation(false)]
pub fn duplicate(v: &Json) -> (r: Json)
    ensures
        jv(r) == jv(*v),
    decreases *v,
{
    match v {
        Json::Null => Json::Null,
        Json::Bool(b) => Json::Bool(*b),
        Json::Int(i) => Json::Int(*i),
        Json::Str(s) => Json::Str(String::from_str(s.as_str())),
        Json::Arr(a) => {
            let n = a.len();
            let mut out: Vec<Json> = Vec::new();
            let mut i: usize = 0;
            proof {
                assert(a@.take(0) =~= Seq::<Json>::empty());
                assert(jv_list(out@) =~= jv_list(a@.take(0)));
            }
            while i < n
                invariant
                    n == a@.len(),
                    0 <= i <= n,
                    jv_list(out@) == jv_list(a@.take(i as int)),
                decreases n - i,
            {
                proof {
                    assert((*v)->Arr_0 == *a);
                    assert(decreases_to!(*v => (*v)->Arr_0));
                    assert(decreases_to!(*a => a@));
                    assert(decreases_to!(a@ => a@[i as int]));
                    assert(decreases_to!(*v => a@[i as int]));
                }
                let copy = duplicate(&a[i]);
                proof {
                    lemma_jv_list_push(out@, a@[i as int]);
                    lemma_jv_list_push(a@.take(i as int), a@[i as int]);
                    assert(a@.take(i + 1) =~= a@.take(i as int).push(a@[i as int]));
                }
                let ghost old_out = out@;
                out.push(copy);
                proof {
                    assert(out@ =~= old_out.push(copy));
                    lemma_jv_list_push(old_out, copy);
                    assert(jv_list(out@) =~= jv_list(a@.take(i + 1)));
                }
                i = i + 1;
            }
            proof {
                assert(a@.take(n as int) =~= a@);
            }
            Json::Arr(out)
        },
        Json::Obj(m) => {
            let n = m.len();
            let mut out: Vec<(String, Json)> = Vec::new();
            let mut i: usize = 0;
            proof {
                assert(m@.take(0) =~= Seq::<(String, Json)>::empty());
                assert(jv_entries(out@) =~= jv_entries(m@.take(0)));
            }
            while i < n
                invariant
                    n == m@.len(),
                    0 <= i <= n,
                    jv_entries(out@) == jv_entries(m@.take(i as int)),
                decreases n - i,
            {
                proof {
                    assert((*v)->Obj_0 == *m);
                    assert(decreases_to!(*v => (*v)->Obj_0));
                    assert(decreases_to!(*m => m@));
                    assert(decreases_to!(m@ => m@[i as int]));
                    assert(decreases_to!(m@[i as int] => m@[i as int].1));
                    assert(decreases_to!(*v => m@[i as int].1));
                }
                let key = String::from_str(m[i].0.as_str());
                let copy = duplicate(&m[i].1);
                let ghost old_out = out@;
                out.push((key, copy));
                proof {
                    lemma_jv_entries_push(m@.take(i as int), m@[i as int]);
                    assert(m@.take(i + 1) =~= m@.take(i as int).push(m@[i as int]));
                    assert(out@ =~= old_out.push((key, copy)));
                    lemma_jv_entries_push(old_out, (key, copy));
                    assert(jv_entries(out@) =~= jv_entries(m@.take(i + 1)));
                }
                i = i + 1;
            }
            proof {
                assert(m@.take(n as int) =~= m@);
            }
            Json::Obj(out)
        },
    }
}

} // verus!
