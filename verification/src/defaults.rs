//! macOS user defaults: the values of the `system_defaults` section, the
//! argument lists handed to the `defaults` tool, and the services that must
//! restart once a domain has changed.
use vstd::prelude::*;
use crate::rules::positions;
use crate::text::{signed_decimal_string, spec_signed_decimal, str_eq};

verus! {

/// A value of the `system_defaults` section.
#[derive(Debug)]
pub enum DefaultsValue {
    Bool(bool),
    Int(i64),
    /// A floating-point value.
    Float(FloatValue),
    String(String),
    Array(Vec<DefaultsValue>),
    /// Key/value pairs, in the order they are written.
    Dict(Vec<(String, DefaultsValue)>),
}

/// A floating-point value as the logic reads it: its IEEE 754 bits, which
/// decide equality, and its decimal text, which `defaults` is handed.
#[derive(Clone, Debug)]
pub struct FloatValue {
    pub bits: u64,
    pub text: String,
}

/// One preference: its domain, its key and its value.
#[derive(Debug)]
pub struct DefaultsEntry {
    pub domain: String,
    pub key: String,
    pub value: DefaultsValue,
}

/// An entry as plain values.
pub type EntryView = (Seq<char>, Seq<char>, DefaultsValue);

/// The texts of a list of strings.
pub open spec fn texts(v: Seq<String>) -> Seq<Seq<char>> {
    v.map_values(|s: String| s@)
}

/// The entries of a list as plain values.
pub open spec fn entries_view(v: Seq<DefaultsEntry>) -> Seq<EntryView> {
    v.map_values(|e: DefaultsEntry| (e.domain@, e.key@, e.value))
}

/// How `defaults` spells a boolean.
pub open spec fn bool_text(b: bool) -> Seq<char> {
    if b {
        "TRUE"@
    } else {
        "FALSE"@
    }
}

/// The type flag and value text of a scalar value; nothing for an array or
/// a dictionary, which cannot nest on the command line.
pub open spec fn scalar_args(v: DefaultsValue) -> Seq<Seq<char>> {
    match v {
        DefaultsValue::Bool(b) => seq!["-bool"@, bool_text(b)],
        DefaultsValue::Int(i) => seq!["-int"@, spec_signed_decimal(i as int)],
        DefaultsValue::Float(f) => seq!["-float"@, f.text@],
        DefaultsValue::String(s) => seq!["-string"@, s@],
        _ => seq![],
    }
}

/// The arguments of the items of an array, in order.
pub open spec fn items_args(items: Seq<DefaultsValue>) -> Seq<Seq<char>>
    decreases items.len(),
{
    if items.len() == 0 {
        seq![]
    } else {
        items_args(items.drop_last()) + scalar_args(items.last())
    }
}

/// The arguments of the entries of a dictionary: each key, then its value.
pub open spec fn dict_args(entries: Seq<(String, DefaultsValue)>) -> Seq<Seq<char>>
    decreases entries.len(),
{
    if entries.len() == 0 {
        seq![]
    } else {
        dict_args(entries.drop_last()) + seq![entries.last().0@] + scalar_args(entries.last().1)
    }
}

/// The domain as `defaults` takes it: the global domain has a flag of its own.
pub open spec fn spec_domain_arg(domain: Seq<char>) -> Seq<char> {
    if domain == "NSGlobalDomain"@ {
        "-globalDomain"@
    } else {
        domain
    }
}

/// The full argument list of `defaults` writing `value` under `key`.
pub open spec fn spec_write_args(domain: Seq<char>, key: Seq<char>, value: DefaultsValue) -> Seq<Seq<char>> {
    let head = seq!["write"@, spec_domain_arg(domain), key];
    match value {
        DefaultsValue::Array(items) => head.push("-array"@) + items_args(items@),
        DefaultsValue::Dict(entries) => head.push("-dict"@) + dict_args(entries@),
        _ => head + scalar_args(value),
    }
}

fn text(s: &str) -> (r: String)
    ensures
        r@ == s@,
{
    String::from_str(s)
}

/// Appends the arguments of a scalar value; an array or a dictionary adds
/// nothing, since `defaults` cannot take a nested one.
pub fn flatten_value_args(value: &DefaultsValue, args: &mut Vec<String>)
    ensures
        texts(final(args)@) == texts(old(args)@) + scalar_args(*value),
{
    match value {
        DefaultsValue::Bool(b) => {
            args.push(text("-bool"));
            if *b {
                args.push(text("TRUE"));
            } else {
                args.push(text("FALSE"));
            }
        },
        DefaultsValue::Int(i) => {
            args.push(text("-int"));
            args.push(signed_decimal_string(*i));
        },
        DefaultsValue::Float(f) => {
            args.push(text("-float"));
            args.push(f.text.clone());
        },
        DefaultsValue::String(s) => {
            args.push(text("-string"));
            args.push(s.clone());
        },
        _ => {},
    }
    assert(texts(args@) =~= texts(old(args)@) + scalar_args(*value));
}

/// The domain argument of `defaults`.
pub fn domain_arg(domain: &str) -> (r: String)
    ensures
        r@ == spec_domain_arg(domain@),
{
    if str_eq(domain, "NSGlobalDomain") {
        text("-globalDomain")
    } else {
        text(domain)
    }
}

/// The argument list of the `defaults` invocation that writes one value.
pub fn write_default_args(domain: &str, key: &str, value: &DefaultsValue) -> (r: Vec<String>)
    ensures
        texts(r@) == spec_write_args(domain@, key@, *value),
{
    let mut args: Vec<String> = Vec::new();
    args.push(text("write"));
    args.push(domain_arg(domain));
    args.push(text(key));
    let ghost head = seq!["write"@, spec_domain_arg(domain@), key@];
    assert(texts(args@) =~= head);
    match value {
        DefaultsValue::Array(items) => {
            args.push(text("-array"));
            let mut i: usize = 0;
            while i < items.len()
                invariant
                    i <= items@.len(),
                    texts(args@) == head.push("-array"@) + items_args(items@.take(i as int)),
                decreases items@.len() - i,
            {
                assert(items@.take(i as int + 1).drop_last() =~= items@.take(i as int));
                flatten_value_args(&items[i], &mut args);
                i = i + 1;
            }
            assert(items@.take(items@.len() as int) =~= items@);
        },
        DefaultsValue::Dict(entries) => {
            args.push(text("-dict"));
            let mut i: usize = 0;
            while i < entries.len()
                invariant
                    i <= entries@.len(),
                    texts(args@) == head.push("-dict"@) + dict_args(entries@.take(i as int)),
                decreases entries@.len() - i,
            {
                assert(entries@.take(i as int + 1).drop_last() =~= entries@.take(i as int));
                let ghost before = texts(args@);
                args.push(entries[i].0.clone());
                assert(texts(args@) =~= before + seq![entries@[i as int].0@]);
                flatten_value_args(&entries[i].1, &mut args);
                i = i + 1;
            }
            assert(entries@.take(entries@.len() as int) =~= entries@);
        },
        _ => {
            flatten_value_args(value, &mut args);
        },
    }
    args
}

/// Whether `list` holds the text `s`.
pub fn contains_text(list: &Vec<String>, s: &str) -> (r: bool)
    ensures
        r == texts(list@).contains(s@),
{
    let mut i: usize = 0;
    while i < list.len()
        invariant
            i <= list@.len(),
            forall|k: int| 0 <= k < i ==> list@[k]@ != s@,
        decreases list@.len() - i,
    {
        if str_eq(list[i].as_str(), s) {
            assert(texts(list@)[i as int] == s@);
            return true;
        }
        i = i + 1;
    }
    assert forall|k: int| 0 <= k < texts(list@).len() implies texts(list@)[k] != s@ by {
        assert(texts(list@)[k] == list@[k]@);
    }
    false
}

/// The processes to restart after the given domains changed: the Dock, the
/// Finder and the menu bar's server, each when one of its domains changed.
pub open spec fn spec_services_to_restart(domains: Seq<Seq<char>>) -> Seq<Seq<char>> {
    let dock = domains.contains("com.apple.dock"@);
    let finder = domains.contains("com.apple.finder"@);
    let sysui = domains.contains("com.apple.menuextra.clock"@) || domains.contains("com.apple.controlcenter"@);
    (if dock { seq!["Dock"@] } else { seq![] }) + (if finder { seq!["Finder"@] } else { seq![] }) + (if sysui {
        seq!["SystemUIServer"@]
    } else {
        seq![]
    })
}

/// The processes to restart (with `killall`) after the given domains changed.
pub fn services_to_restart(domains: &Vec<String>) -> (r: Vec<String>)
    ensures
        texts(r@) == spec_services_to_restart(texts(domains@)),
{
    let dock = contains_text(domains, "com.apple.dock");
    let finder = contains_text(domains, "com.apple.finder");
    let clock = contains_text(domains, "com.apple.menuextra.clock");
    let control = contains_text(domains, "com.apple.controlcenter");
    let mut out: Vec<String> = Vec::new();
    if dock {
        out.push(text("Dock"));
    }
    if finder {
        out.push(text("Finder"));
    }
    if clock || control {
        out.push(text("SystemUIServer"));
    }
    assert(texts(out@) =~= spec_services_to_restart(texts(domains@)));
    out
}


/// Whether the IEEE 754 doubles with these bits are equal as numbers: no
/// NaN equals anything, and the two zeros are equal.
pub open spec fn float_bits_eq(a: u64, b: u64) -> bool {
    let nan_a = (a & 0x7ff0_0000_0000_0000u64) == 0x7ff0_0000_0000_0000u64 && (a & 0x000f_ffff_ffff_ffffu64) != 0;
    let nan_b = (b & 0x7ff0_0000_0000_0000u64) == 0x7ff0_0000_0000_0000u64 && (b & 0x000f_ffff_ffff_ffffu64) != 0;
    let zero_a = (a & 0x7fff_ffff_ffff_ffffu64) == 0;
    let zero_b = (b & 0x7fff_ffff_ffff_ffffu64) == 0;
    !nan_a && !nan_b && (a == b || (zero_a && zero_b))
}

/// Compares two doubles by their bits, as `==` on `f64` does.
pub fn float_eq(a: u64, b: u64) -> (r: bool)
    ensures
        r == float_bits_eq(a, b),
{
    let nan_a = (a & 0x7ff0_0000_0000_0000u64) == 0x7ff0_0000_0000_0000u64 && (a & 0x000f_ffff_ffff_ffffu64) != 0;
    let nan_b = (b & 0x7ff0_0000_0000_0000u64) == 0x7ff0_0000_0000_0000u64 && (b & 0x000f_ffff_ffff_ffffu64) != 0;
    let zero_a = (a & 0x7fff_ffff_ffff_ffffu64) == 0;
    let zero_b = (b & 0x7fff_ffff_ffff_ffffu64) == 0;
    !nan_a && !nan_b && (a == b || (zero_a && zero_b))
}

/// Whether two values are equal: same kind and equal contents, floats
/// compared as numbers.
pub open spec fn same_value(a: DefaultsValue, b: DefaultsValue) -> bool
    decreases a,
{
    match a {
        DefaultsValue::Bool(x) => b matches DefaultsValue::Bool(y) && x == y,
        DefaultsValue::Int(x) => b matches DefaultsValue::Int(y) && x == y,
        DefaultsValue::Float(x) => b matches DefaultsValue::Float(y) && float_bits_eq(x.bits, y.bits),
        DefaultsValue::String(x) => b matches DefaultsValue::String(y) && x@ == y@,
        DefaultsValue::Array(xs) => b matches DefaultsValue::Array(ys) && same_values(xs@, ys@),
        DefaultsValue::Dict(xs) => b matches DefaultsValue::Dict(ys) && same_pairs(xs@, ys@),
    }
}

/// Whether two lists of values are equal, item by item.
pub open spec fn same_values(xs: Seq<DefaultsValue>, ys: Seq<DefaultsValue>) -> bool
    decreases xs,
{
    if xs.len() == 0 {
        ys.len() == 0
    } else {
        ys.len() > 0 && same_value(xs[0], ys[0]) && same_values(xs.drop_first(), ys.drop_first())
    }
}

/// Whether two lists of key/value pairs are equal, pair by pair.
pub open spec fn same_pairs(xs: Seq<(String, DefaultsValue)>, ys: Seq<(String, DefaultsValue)>) -> bool
    decreases xs,
{
    if xs.len() == 0 {
        ys.len() == 0
    } else {
        ys.len() > 0 && xs[0].0@ == ys[0].0@ && same_value(xs[0].1, ys[0].1) && same_pairs(
            xs.drop_first(),
            ys.drop_first(),
        )
    }
}

/// Lists of different lengths are never equal.
pub proof fn lemma_same_values_len(xs: Seq<DefaultsValue>, ys: Seq<DefaultsValue>)
    ensures
        same_values(xs, ys) ==> xs.len() == ys.len(),
    decreases xs.len(),
{
    if xs.len() > 0 && ys.len() > 0 {
        lemma_same_values_len(xs.drop_first(), ys.drop_first());
    }
}

/// Pair lists of different lengths are never equal.
pub proof fn lemma_same_pairs_len(xs: Seq<(String, DefaultsValue)>, ys: Seq<(String, DefaultsValue)>)
    ensures
        same_pairs(xs, ys) ==> xs.len() == ys.len(),
    decreases xs.len(),
{
    if xs.len() > 0 && ys.len() > 0 {
        lemma_same_pairs_len(xs.drop_first(), ys.drop_first());
    }
}

/// Compares two values.
pub fn values_equal(a: &DefaultsValue, b: &DefaultsValue) -> (r: bool)
    ensures
        r == same_value(*a, *b),
    decreases *a,
{
    match a {
        DefaultsValue::Bool(x) => match b {
            DefaultsValue::Bool(y) => *x == *y,
            _ => false,
        },
        DefaultsValue::Int(x) => match b {
            DefaultsValue::Int(y) => *x == *y,
            _ => false,
        },
        DefaultsValue::Float(x) => match b {
            DefaultsValue::Float(y) => float_eq(x.bits, y.bits),
            _ => false,
        },
        DefaultsValue::String(x) => match b {
            DefaultsValue::String(y) => str_eq(x.as_str(), y.as_str()),
            _ => false,
        },
        DefaultsValue::Array(xs) => match b {
            DefaultsValue::Array(ys) => {
                proof {
                    lemma_same_values_len(xs@, ys@);
                    assert(xs@.skip(0) =~= xs@);
                    assert(ys@.skip(0) =~= ys@);
                    assert(decreases_to!(*a => xs@));
                }
                xs.len() == ys.len() && lists_equal(xs, ys, 0)
            },
            _ => false,
        },
        DefaultsValue::Dict(xs) => match b {
            DefaultsValue::Dict(ys) => {
                proof {
                    lemma_same_pairs_len(xs@, ys@);
                    assert(xs@.skip(0) =~= xs@);
                    assert(ys@.skip(0) =~= ys@);
                    assert(decreases_to!(*a => xs@));
                }
                xs.len() == ys.len() && pairs_equal(xs, ys, 0)
            },
            _ => false,
        },
    }
}

fn lists_equal(xs: &Vec<DefaultsValue>, ys: &Vec<DefaultsValue>, from: usize) -> (r: bool)
    requires
        from <= xs@.len(),
        xs@.len() == ys@.len(),
    ensures
        r == same_values(xs@.skip(from as int), ys@.skip(from as int)),
    decreases xs@.skip(from as int),
{
    let ghost a = xs@.skip(from as int);
    let ghost b = ys@.skip(from as int);
    if from == xs.len() {
        return true;
    }
    assert(a[0] == xs@[from as int]);
    assert(b[0] == ys@[from as int]);
    assert(a.drop_first() =~= xs@.skip(from as int + 1));
    assert(b.drop_first() =~= ys@.skip(from as int + 1));
    assert(decreases_to!(a => a[0]));
    assert(decreases_to!(a => a.subrange(1, a.len() as int)));
    if !values_equal(&xs[from], &ys[from]) {
        return false;
    }
    lists_equal(xs, ys, from + 1)
}

fn pairs_equal(xs: &Vec<(String, DefaultsValue)>, ys: &Vec<(String, DefaultsValue)>, from: usize) -> (r: bool)
    requires
        from <= xs@.len(),
        xs@.len() == ys@.len(),
    ensures
        r == same_pairs(xs@.skip(from as int), ys@.skip(from as int)),
    decreases xs@.skip(from as int),
{
    let ghost a = xs@.skip(from as int);
    let ghost b = ys@.skip(from as int);
    if from == xs.len() {
        return true;
    }
    assert(a[0] == xs@[from as int]);
    assert(b[0] == ys@[from as int]);
    assert(a.drop_first() =~= xs@.skip(from as int + 1));
    assert(b.drop_first() =~= ys@.skip(from as int + 1));
    assert(decreases_to!(a => a[0]));
    assert(decreases_to!(a[0] => a[0].1));
    assert(decreases_to!(a => a.subrange(1, a.len() as int)));
    if !str_eq(xs[from].0.as_str(), ys[from].0.as_str()) {
        return false;
    }
    if !values_equal(&xs[from].1, &ys[from].1) {
        return false;
    }
    pairs_equal(xs, ys, from + 1)
}


/// The first of the first `n` entries for `domain` and `key`.
pub open spec fn lookup(entries: Seq<DefaultsEntry>, n: int, domain: Seq<char>, key: Seq<char>) -> Option<int>
    decreases n,
{
    if n <= 0 {
        None
    } else {
        match lookup(entries, n - 1, domain, key) {
            Some(i) => Some(i),
            None => if entries[n - 1].domain@ == domain && entries[n - 1].key@ == key {
                Some(n - 1)
            } else {
                None
            },
        }
    }
}

/// Whether `e` must be written: it is new, or its value differs from the
/// one set before.
pub open spec fn entry_changed(old: Seq<DefaultsEntry>, e: DefaultsEntry) -> bool {
    match lookup(old, old.len() as int, e.domain@, e.key@) {
        Some(i) => !same_value(old[i].value, e.value),
        None => true,
    }
}

/// The positions of the changed entries among the first `n` new ones.
pub open spec fn spec_changed(old: Seq<DefaultsEntry>, new: Seq<DefaultsEntry>, n: int) -> Seq<int>
    decreases n,
{
    if n <= 0 {
        seq![]
    } else if entry_changed(old, new[n - 1]) {
        spec_changed(old, new, n - 1).push(n - 1)
    } else {
        spec_changed(old, new, n - 1)
    }
}

/// The domains of the changed entries among the first `n`, each once, in
/// the order they first change.
pub open spec fn spec_changed_domains(old: Seq<DefaultsEntry>, new: Seq<DefaultsEntry>, n: int) -> Seq<Seq<char>>
    decreases n,
{
    if n <= 0 {
        seq![]
    } else {
        let prev = spec_changed_domains(old, new, n - 1);
        if entry_changed(old, new[n - 1]) && !prev.contains(new[n - 1].domain@) {
            prev.push(new[n - 1].domain@)
        } else {
            prev
        }
    }
}

/// What a reload must write: the positions of the new entries that
/// changed, and the domains they belong to.
#[derive(Debug)]
pub struct DefaultsDiff {
    pub writes: Vec<usize>,
    pub changed_domains: Vec<String>,
}

fn find_entry(entries: &Vec<DefaultsEntry>, domain: &str, key: &str) -> (r: Option<usize>)
    ensures
        match r {
            Some(i) => i < entries@.len() && lookup(entries@, entries@.len() as int, domain@, key@) == Some(i as int),
            None => lookup(entries@, entries@.len() as int, domain@, key@) is None,
        },
{
    let mut i: usize = 0;
    while i < entries.len()
        invariant
            i <= entries@.len(),
            lookup(entries@, i as int, domain@, key@) is None,
        decreases entries@.len() - i,
    {
        if str_eq(entries[i].domain.as_str(), domain) && str_eq(entries[i].key.as_str(), key) {
            proof {
                lemma_lookup_extends(entries@, i as int + 1, entries@.len() as int, domain@, key@);
            }
            return Some(i);
        }
        i = i + 1;
    }
    None
}

/// A match found among the first `n` entries stays the first one.
proof fn lemma_lookup_extends(entries: Seq<DefaultsEntry>, n: int, m: int, domain: Seq<char>, key: Seq<char>)
    requires
        0 <= n <= m,
        lookup(entries, n, domain, key) is Some,
    ensures
        lookup(entries, m, domain, key) == lookup(entries, n, domain, key),
    decreases m - n,
{
    if m > n {
        lemma_lookup_extends(entries, n, m - 1, domain, key);
    }
}

/// Compares the preferences before and after a reload: the new entries to
/// write (new keys, or values that differ) and the domains they touch.
/// Removed keys are left alone.
pub fn diff_defaults(old: &Vec<DefaultsEntry>, new: &Vec<DefaultsEntry>) -> (d: DefaultsDiff)
    ensures
        positions(d.writes@) == spec_changed(old@, new@, new@.len() as int),
        texts(d.changed_domains@) == spec_changed_domains(old@, new@, new@.len() as int),
{
    let mut writes: Vec<usize> = Vec::new();
    let mut domains: Vec<String> = Vec::new();
    let mut i: usize = 0;
    assert(positions(writes@) =~= Seq::<int>::empty());
    assert(texts(domains@) =~= Seq::<Seq<char>>::empty());
    while i < new.len()
        invariant
            i <= new@.len(),
            positions(writes@) == spec_changed(old@, new@, i as int),
            texts(domains@) == spec_changed_domains(old@, new@, i as int),
        decreases new@.len() - i,
    {
        let e = &new[i];
        let changed = match find_entry(old, e.domain.as_str(), e.key.as_str()) {
            Some(k) => !values_equal(&old[k].value, &e.value),
            None => true,
        };
        assert(changed == entry_changed(old@, new@[i as int]));
        if changed {
            let ghost w = positions(writes@);
            writes.push(i);
            assert(positions(writes@) =~= w.push(i as int));
            if !contains_text(&domains, e.domain.as_str()) {
                let ghost t = texts(domains@);
                domains.push(e.domain.clone());
                assert(texts(domains@) =~= t.push(new@[i as int].domain@));
            }
        }
        i = i + 1;
    }
    DefaultsDiff { writes, changed_domains: domains }
}

/// Law: an entry equal to the one set before is never rewritten, and every
/// rewritten domain is the domain of a rewritten entry.
pub proof fn lemma_diff_writes_only_changes(old: Seq<DefaultsEntry>, new: Seq<DefaultsEntry>, n: int)
    requires
        0 <= n <= new.len(),
    ensures
        forall|k: int| 0 <= k < n ==> (spec_changed(old, new, n).contains(k) <==> entry_changed(old, #[trigger] new[k])),
        forall|d: Seq<char>|
            spec_changed_domains(old, new, n).contains(d) ==> exists|k: int|
                0 <= k < n && entry_changed(old, #[trigger] new[k]) && new[k].domain@ == d,
    decreases n,
{
    if n > 0 {
        lemma_diff_writes_only_changes(old, new, n - 1);
        let prev = spec_changed(old, new, n - 1);
        let cur = spec_changed(old, new, n);
        assert forall|k: int| 0 <= k < n implies (cur.contains(k) <==> entry_changed(old, #[trigger] new[k])) by {
            if entry_changed(old, new[n - 1]) {
                assert(cur == prev.push(n - 1));
                if k < n - 1 {
                    if cur.contains(k) {
                        let j = choose|j: int| 0 <= j < cur.len() && cur[j] == k;
                        if j < prev.len() {
                            assert(prev[j] == k);
                        }
                    }
                    if prev.contains(k) {
                        let j = choose|j: int| 0 <= j < prev.len() && prev[j] == k;
                        assert(cur[j] == k);
                    }
                } else {
                    assert(cur[cur.len() - 1] == n - 1);
                }
            } else if k == n - 1 && cur.contains(k) {
                lemma_changed_below(old, new, n - 1);
                let j = choose|j: int| 0 <= j < cur.len() && cur[j] == k;
                assert(prev[j] < n - 1);
            }
        }
        let pd = spec_changed_domains(old, new, n - 1);
        let cd = spec_changed_domains(old, new, n);
        assert forall|d: Seq<char>| cd.contains(d) implies exists|k: int|
            0 <= k < n && entry_changed(old, #[trigger] new[k]) && new[k].domain@ == d by {
            if pd.contains(d) {
                let k = choose|k: int| 0 <= k < n - 1 && entry_changed(old, #[trigger] new[k]) && new[k].domain@ == d;
                assert(0 <= k < n && entry_changed(old, new[k]) && new[k].domain@ == d);
            } else {
                let j = choose|j: int| 0 <= j < cd.len() && cd[j] == d;
                assert(cd != pd);
                assert(cd == pd.push(new[n - 1].domain@));
                assert(j == pd.len());
                assert(entry_changed(old, new[n - 1]) && new[n - 1].domain@ == d);
            }
        }
    }
}

/// The positions listed among the first `n` are below `n`.
proof fn lemma_changed_below(old: Seq<DefaultsEntry>, new: Seq<DefaultsEntry>, n: int)
    requires
        0 <= n,
    ensures
        forall|j: int| 0 <= j < spec_changed(old, new, n).len() ==> #[trigger] spec_changed(old, new, n)[j] < n,
    decreases n,
{
    if n > 0 {
        lemma_changed_below(old, new, n - 1);
        let prev = spec_changed(old, new, n - 1);
        let cur = spec_changed(old, new, n);
        assert forall|j: int| 0 <= j < cur.len() implies #[trigger] cur[j] < n by {
            if j < prev.len() {
                assert(cur[j] == prev[j]);
            }
        }
    }
}

} // verus!
