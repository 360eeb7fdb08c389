//! JSON values and the deep merge of a configuration patch into the current
//! options.
use vstd::prelude::*;
use crate::text::str_eq;

verus! {

/// A JSON value. Object members are kept in order; a number is held as its
/// JSON text.
#[derive(Debug)]
pub enum JsonValue {
    Null,
    Bool(bool),
    Number(String),
    String(String),
    Array(Vec<JsonValue>),
    Object(Vec<(String, JsonValue)>),
}

/// A JSON value as plain mathematical values.
pub enum JsonView {
    Null,
    Bool(bool),
    Number(Seq<char>),
    Str(Seq<char>),
    Array(Seq<JsonView>),
    Object(Seq<(Seq<char>, JsonView)>),
}

/// The plain form of a value.
pub open spec fn view_of(v: JsonValue) -> JsonView
    decreases v,
{
    match v {
        JsonValue::Null => JsonView::Null,
        JsonValue::Bool(b) => JsonView::Bool(b),
        JsonValue::Number(n) => JsonView::Number(n@),
        JsonValue::String(s) => JsonView::Str(s@),
        JsonValue::Array(items) => JsonView::Array(views_of(items@)),
        JsonValue::Object(members) => JsonView::Object(members_of(members@)),
    }
}

/// The plain forms of a list of values.
pub open spec fn views_of(items: Seq<JsonValue>) -> Seq<JsonView>
    decreases items,
{
    if items.len() == 0 {
        seq![]
    } else {
        seq![view_of(items[0])] + views_of(items.drop_first())
    }
}

/// The plain forms of a list of object members.
pub open spec fn members_of(members: Seq<(String, JsonValue)>) -> Seq<(Seq<char>, JsonView)>
    decreases members,
{
    if members.len() == 0 {
        seq![]
    } else {
        seq![(members[0].0@, view_of(members[0].1))] + members_of(members.drop_first())
    }
}

/// The first member named `key`.
pub open spec fn find_member(members: Seq<(Seq<char>, JsonView)>, key: Seq<char>) -> Option<int>
    decreases members.len(),
{
    if members.len() == 0 {
        None
    } else if members.last().0 == key {
        match find_member(members.drop_last(), key) {
            Some(i) => Some(i),
            None => Some(members.len() - 1),
        }
    } else {
        find_member(members.drop_last(), key)
    }
}

/// `patch` merged into `target`: objects merge member by member, anything
/// else is replaced by the patch.
pub open spec fn merged(target: JsonView, patch: JsonView) -> JsonView
    decreases patch,
{
    match patch {
        JsonView::Object(ps) => match target {
            JsonView::Object(ts) => JsonView::Object(merge_members(ts, ps)),
            _ => patch,
        },
        _ => patch,
    }
}

/// Merges the patch members `ps`, in order, into the members `ts`.
pub open spec fn merge_members(ts: Seq<(Seq<char>, JsonView)>, ps: Seq<(Seq<char>, JsonView)>) -> Seq<
    (Seq<char>, JsonView),
>
    decreases ps,
{
    if ps.len() == 0 {
        ts
    } else {
        merge_members(merge_member(ts, ps[0]), ps.drop_first())
    }
}

/// Merges one patch member: into the member of the same name, or added at
/// the end when there is none.
pub open spec fn merge_member(ts: Seq<(Seq<char>, JsonView)>, p: (Seq<char>, JsonView)) -> Seq<(Seq<char>, JsonView)>
    decreases p,
{
    match find_member(ts, p.0) {
        Some(i) => ts.update(i, (p.0, merged(ts[i].1, p.1))),
        None => ts.push(p),
    }
}

proof fn lemma_views_len(items: Seq<JsonValue>)
    ensures
        views_of(items).len() == items.len(),
    decreases items.len(),
{
    if items.len() > 0 {
        lemma_views_len(items.drop_first());
    }
}

proof fn lemma_members_len(members: Seq<(String, JsonValue)>)
    ensures
        members_of(members).len() == members.len(),
    decreases members.len(),
{
    if members.len() > 0 {
        lemma_members_len(members.drop_first());
    }
}

/// The plain forms of a list, element by element.
proof fn lemma_views_index(items: Seq<JsonValue>, k: int)
    requires
        0 <= k < items.len(),
    ensures
        views_of(items)[k] == view_of(items[k]),
    decreases k,
{
    lemma_views_len(items.drop_first());
    if k > 0 {
        lemma_views_index(items.drop_first(), k - 1);
    }
}

/// The plain forms of members, member by member.
proof fn lemma_members_index(members: Seq<(String, JsonValue)>, k: int)
    requires
        0 <= k < members.len(),
    ensures
        members_of(members)[k] == (members[k].0@, view_of(members[k].1)),
    decreases k,
{
    lemma_members_len(members.drop_first());
    if k > 0 {
        lemma_members_index(members.drop_first(), k - 1);
    }
}

/// Two lists with the same plain forms element by element have the same
/// plain form.
proof fn lemma_views_ext(a: Seq<JsonValue>, b: Seq<JsonView>)
    requires
        a.len() == b.len(),
        forall|k: int| 0 <= k < a.len() ==> view_of(#[trigger] a[k]) == b[k],
    ensures
        views_of(a) == b,
{
    lemma_views_len(a);
    assert forall|k: int| 0 <= k < a.len() implies views_of(a)[k] == b[k] by {
        lemma_views_index(a, k);
    }
    assert(views_of(a) =~= b);
}

/// Two member lists with the same plain forms member by member have the
/// same plain form.
proof fn lemma_members_ext(a: Seq<(String, JsonValue)>, b: Seq<(Seq<char>, JsonView)>)
    requires
        a.len() == b.len(),
        forall|k: int| 0 <= k < a.len() ==> (#[trigger] a[k]).0@ == b[k].0 && view_of(a[k].1) == b[k].1,
    ensures
        members_of(a) == b,
{
    lemma_members_len(a);
    assert forall|k: int| 0 <= k < a.len() implies members_of(a)[k] == b[k] by {
        lemma_members_index(a, k);
    }
    assert(members_of(a) =~= b);
}

/// A deep copy of a value.
pub fn copy_value(v: &JsonValue) -> (r: JsonValue)
    ensures
        view_of(r) == view_of(*v),
    decreases *v,
{
    match v {
        JsonValue::Null => JsonValue::Null,
        JsonValue::Bool(b) => JsonValue::Bool(*b),
        JsonValue::Number(n) => JsonValue::Number(n.clone()),
        JsonValue::String(s) => JsonValue::String(s.clone()),
        JsonValue::Array(items) => {
            let mut out: Vec<JsonValue> = Vec::new();
            let mut k: usize = 0;
            assert(decreases_to!(*v => items@));
            while k < items.len()
                invariant
                    decreases_to!(*v => items@),
                    k <= items@.len(),
                    out@.len() == k,
                    forall|j: int| 0 <= j < k ==> view_of(#[trigger] out@[j]) == view_of(items@[j]),
                decreases items@.len() - k,
            {
                proof {
                    assert(decreases_to!(items@ => items@[k as int]));
                }
                let c = copy_value(&items[k]);
                out.push(c);
                k = k + 1;
            }
            proof {
                lemma_views_len(items@);
                assert forall|j: int| 0 <= j < out@.len() implies view_of(#[trigger] out@[j]) == views_of(items@)[j] by {
                    lemma_views_index(items@, j);
                }
                lemma_views_ext(out@, views_of(items@));
            }
            JsonValue::Array(out)
        },
        JsonValue::Object(members) => {
            let mut out: Vec<(String, JsonValue)> = Vec::new();
            let mut k: usize = 0;
            assert(decreases_to!(*v => members@));
            while k < members.len()
                invariant
                    decreases_to!(*v => members@),
                    k <= members@.len(),
                    out@.len() == k,
                    forall|j: int|
                        0 <= j < k ==> (#[trigger] out@[j]).0@ == members@[j].0@ && view_of(out@[j].1) == view_of(
                            members@[j].1,
                        ),
                decreases members@.len() - k,
            {
                proof {
                    assert(decreases_to!(members@ => members@[k as int]));
                    assert(decreases_to!(members@[k as int] => members@[k as int].1));
                }
                let c = copy_value(&members[k].1);
                out.push((members[k].0.clone(), c));
                k = k + 1;
            }
            proof {
                lemma_members_len(members@);
                assert forall|j: int| 0 <= j < out@.len() implies (#[trigger] out@[j]).0@ == members_of(members@)[j].0
                    && view_of(out@[j].1) == members_of(members@)[j].1 by {
                    lemma_members_index(members@, j);
                }
                lemma_members_ext(out@, members_of(members@));
            }
            JsonValue::Object(out)
        },
    }
}

fn find_key(members: &Vec<(String, JsonValue)>, key: &str) -> (r: Option<usize>)
    ensures
        match r {
            Some(i) => i < members@.len() && find_member(members_of(members@), key@) == Some(i as int),
            None => find_member(members_of(members@), key@) is None,
        },
{
    let ghost ms = members_of(members@);
    proof {
        lemma_members_len(members@);
    }
    let mut i: usize = 0;
    while i < members.len()
        invariant
            i <= members@.len(),
            ms == members_of(members@),
            ms.len() == members@.len(),
            forall|j: int| 0 <= j < i ==> ms[j].0 != key@,
        decreases members@.len() - i,
    {
        proof {
            lemma_members_index(members@, i as int);
        }
        if str_eq(members[i].0.as_str(), key) {
            proof {
                lemma_find_first(ms, key@, i as int);
            }
            return Some(i);
        }
        i = i + 1;
    }
    proof {
        lemma_find_none(ms, key@);
    }
    None
}

/// The first member named `key` is at `i` when no earlier member has that name.
proof fn lemma_find_first(ms: Seq<(Seq<char>, JsonView)>, key: Seq<char>, i: int)
    requires
        0 <= i < ms.len(),
        ms[i].0 == key,
        forall|j: int| 0 <= j < i ==> ms[j].0 != key,
    ensures
        find_member(ms, key) == Some(i),
    decreases ms.len(),
{
    if i < ms.len() - 1 {
        lemma_find_first(ms.drop_last(), key, i);
        if ms.last().0 == key {
        }
    } else {
        lemma_find_none(ms.drop_last(), key);
    }
}

/// No member named `key` is found when none has that name.
proof fn lemma_find_none(ms: Seq<(Seq<char>, JsonView)>, key: Seq<char>)
    requires
        forall|j: int| 0 <= j < ms.len() ==> ms[j].0 != key,
    ensures
        find_member(ms, key) is None,
    decreases ms.len(),
{
    if ms.len() > 0 {
        lemma_find_none(ms.drop_last(), key);
    }
}

/// The found position names an existing member.
proof fn lemma_find_some(ms: Seq<(Seq<char>, JsonView)>, key: Seq<char>)
    ensures
        find_member(ms, key) matches Some(i) ==> 0 <= i < ms.len() && ms[i].0 == key,
    decreases ms.len(),
{
    if ms.len() > 0 {
        lemma_find_some(ms.drop_last(), key);
    }
}

/// Deep-merges `patch` into `target`: members of two objects merge by name
/// (new names are added at the end), anything else is replaced by a copy of
/// the patch.
pub fn json_merge(target: JsonValue, patch: &JsonValue) -> (r: JsonValue)
    ensures
        view_of(r) == merged(view_of(target), view_of(*patch)),
    decreases *patch,
{
    match patch {
        JsonValue::Object(ps) => match target {
            JsonValue::Object(ts) => {
                let mut members = ts;
                let ghost start = members_of(members@);
                let mut k: usize = 0;
                proof {
                    assert(ps@.skip(0) =~= ps@);
                    lemma_members_len(ps@);
                }
                assert(decreases_to!(*patch => ps@));
                while k < ps.len()
                    invariant
                        decreases_to!(*patch => ps@),
                        k <= ps@.len(),
                        merge_members(start, members_of(ps@)) == merge_members(
                            members_of(members@),
                            members_of(ps@.skip(k as int)),
                        ),
                    decreases ps@.len() - k,
                {
                    let ghost cur = members_of(members@);
                    let ghost rest = members_of(ps@.skip(k as int));
                    proof {
                        assert(ps@.skip(k as int).drop_first() =~= ps@.skip(k as int + 1));
                        assert(ps@.skip(k as int)[0] == ps@[k as int]);
                        assert(rest[0] == (ps@[k as int].0@, view_of(ps@[k as int].1)));
                        assert(rest.drop_first() == members_of(ps@.skip(k as int + 1)));
                        lemma_members_len(ps@.skip(k as int));
                        assert(merge_members(cur, rest) == merge_members(merge_member(cur, rest[0]), rest.drop_first()));
                        lemma_members_len(members@);
                        assert(decreases_to!(ps@ => ps@[k as int]));
                        assert(decreases_to!(ps@[k as int] => ps@[k as int].1));
                    }
                    let key = &ps[k].0;
                    match find_key(&members, key.as_str()) {
                        Some(i) => {
                            proof {
                                lemma_find_some(cur, key@);
                                lemma_members_index(members@, i as int);
                            }
                            let ghost before = members@;
                            let (name, old) = members.remove(i);
                            let value = json_merge(old, &ps[k].1);
                            members.insert(i, (name, value));
                            proof {
                                let want = cur.update(i as int, (key@, merged(cur[i as int].1, view_of(ps@[k as int].1))));
                                lemma_members_len(before);
                                assert(members@ == before.remove(i as int).insert(i as int, (name, value)));
                                assert forall|j: int| 0 <= j < members@.len() implies (#[trigger] members@[j]).0@
                                    == want[j].0 && view_of(members@[j].1) == want[j].1 by {
                                    lemma_members_index(before, j);
                                    if j != i as int {
                                        assert(members@[j] == before[j]);
                                    } else {
                                        assert(members@[j] == (name, value));
                                    }
                                }
                                lemma_members_ext(members@, want);
                                assert(members_of(members@) == merge_member(cur, rest[0]));
                            }
                        },
                        None => {
                            let value = copy_value(&ps[k].1);
                            let ghost before = members@;
                            members.push((key.clone(), value));
                            proof {
                                let want = cur.push((key@, view_of(ps@[k as int].1)));
                                lemma_members_len(before);
                                assert forall|j: int| 0 <= j < members@.len() implies (#[trigger] members@[j]).0@
                                    == want[j].0 && view_of(members@[j].1) == want[j].1 by {
                                    if j < before.len() {
                                        lemma_members_index(before, j);
                                    }
                                }
                                lemma_members_ext(members@, want);
                                assert(members_of(members@) == merge_member(cur, rest[0]));
                            }
                        },
                    }
                    k = k + 1;
                }
                proof {
                    assert(ps@.skip(ps@.len() as int) =~= Seq::<(String, JsonValue)>::empty());
                }
                JsonValue::Object(members)
            },
            _ => copy_value(patch),
        },
        _ => copy_value(patch),
    }
}


/// Whether no patch member is named `key`.
pub open spec fn unnamed_in(ps: Seq<(Seq<char>, JsonView)>, key: Seq<char>) -> bool {
    forall|j: int| 0 <= j < ps.len() ==> #[trigger] ps[j].0 != key
}

/// Law: merging object members keeps every target member whose name the
/// patch does not use, in its place and unchanged; members are only ever
/// added at the end.
pub proof fn lemma_merge_keeps_unpatched(ts: Seq<(Seq<char>, JsonView)>, ps: Seq<(Seq<char>, JsonView)>, i: int)
    requires
        0 <= i < ts.len(),
        unnamed_in(ps, ts[i].0),
    ensures
        merge_members(ts, ps).len() >= ts.len(),
        merge_members(ts, ps)[i] == ts[i],
    decreases ps.len(),
{
    if ps.len() > 0 {
        let once = merge_member(ts, ps[0]);
        lemma_find_some(ts, ps[0].0);
        assert(ps[0].0 != ts[i].0);
        assert(once.len() >= ts.len() && once[i] == ts[i]);
        assert(unnamed_in(ps.drop_first(), once[i].0)) by {
            assert forall|j: int| 0 <= j < ps.drop_first().len() implies #[trigger] ps.drop_first()[j].0 != once[i].0 by {
                assert(ps.drop_first()[j] == ps[j + 1]);
            }
        }
        lemma_merge_keeps_unpatched(once, ps.drop_first(), i);
    }
}

/// Law: a patch that is not an object, or merged into something that is
/// not an object, replaces the target.
pub proof fn lemma_merge_replaces_non_objects(target: JsonView, patch: JsonView)
    requires
        !(patch is Object) || !(target is Object),
    ensures
        merged(target, patch) == patch,
{
}

} // verus!
