//! Provenance properties of one run: the typed manifest and the values.
use vstd::prelude::*;
use crate::git::{GitInfo, browse_url, opt_view, repo_path};
use crate::run::{ExecState, RunError, push_assignments};
use crate::run::{KeyValue, RunOpt, pairs_of, string_pairs};
use crate::text::{lex_less, lex_lt, lemma_lex_asymmetric, lemma_lex_irreflexive, lemma_lex_total, lemma_lex_transitive};
use vstd::string::*;

verus! {

/// The type of a declared property.
#[derive(Clone, Copy, Debug, PartialEq, Eq, Structural)]
pub enum PropertyType {
    Int,
    String,
}

/// One property value written to the metadata store.
#[derive(Clone, Debug)]
pub enum PropertyValue {
    Int(i32),
    String(String),
}

/// What a property value stands for.
pub enum ValueView {
    Int(int),
    Text(Seq<char>),
}

impl PropertyValue {
    pub open spec fn view(&self) -> ValueView {
        match self {
            PropertyValue::Int(i) => ValueView::Int(*i as int),
            PropertyValue::String(s) => ValueView::Text(s@),
        }
    }
}

/// The names and values of a list of properties.
pub open spec fn entries_view(v: Seq<(String, PropertyValue)>) -> Seq<(Seq<char>, ValueView)> {
    v.map_values(|e: (String, PropertyValue)| (e.0@, e.1.view()))
}

/// A lowercase hexadecimal digit.
pub open spec fn hex_digit(d: int) -> char {
    seq!['0', '1', '2', '3', '4', '5', '6', '7', '8', '9', 'a', 'b', 'c', 'd', 'e', 'f'][d]
}

/// How serde_json writes one character inside a JSON string: `"` and `\`
/// escaped, the usual short escapes for backspace, tab, line feed, form feed
/// and carriage return, `\u00xx` for the other characters below 0x20, and
/// every other character as it is.
pub open spec fn json_char(c: char) -> Seq<char> {
    let u = c as int;
    if c == '"' {
        seq!['\\', '"']
    } else if c == '\\' {
        seq!['\\', '\\']
    } else if u == 8 {
        seq!['\\', 'b']
    } else if u == 9 {
        seq!['\\', 't']
    } else if u == 10 {
        seq!['\\', 'n']
    } else if u == 12 {
        seq!['\\', 'f']
    } else if u == 13 {
        seq!['\\', 'r']
    } else if 0 <= u < 0x20 {
        seq!['\\', 'u', '0', '0', hex_digit(u / 16), hex_digit(u % 16)]
    } else {
        seq![c]
    }
}

pub open spec fn json_escaped(s: Seq<char>) -> Seq<char>
    decreases s.len(),
{
    if s.len() == 0 {
        seq![]
    } else {
        json_escaped(s.drop_last()) + json_char(s.last())
    }
}

/// A JSON string literal.
pub open spec fn json_string(s: Seq<char>) -> Seq<char> {
    seq!['"'] + json_escaped(s) + seq!['"']
}

/// String literals separated by commas.
pub open spec fn json_items(xs: Seq<Seq<char>>) -> Seq<char>
    decreases xs.len(),
{
    if xs.len() == 0 {
        seq![]
    } else if xs.len() == 1 {
        json_string(xs[0])
    } else {
        json_items(xs.drop_last()) + seq![','] + json_string(xs.last())
    }
}

/// `"key":"value"` members separated by commas.
pub open spec fn json_members(pairs: Seq<(Seq<char>, Seq<char>)>) -> Seq<char>
    decreases pairs.len(),
{
    if pairs.len() == 0 {
        seq![]
    } else {
        let m = json_string(pairs.last().0) + seq![':'] + json_string(pairs.last().1);
        if pairs.len() == 1 {
            m
        } else {
            json_members(pairs.drop_last()) + seq![','] + m
        }
    }
}

/// The compact JSON array of these strings.
pub open spec fn json_array_text(items: Seq<Seq<char>>) -> Seq<char> {
    seq!['['] + json_items(items) + seq![']']
}

/// The compact JSON object of these pairs, in their order.
pub open spec fn json_object_text(pairs: Seq<(Seq<char>, Seq<char>)>) -> Seq<char> {
    seq!['{'] + json_members(pairs) + seq!['}']
}

/// Relies on `serde_json::to_string` of a string map: compact output, members
/// in the map's key order, strings escaped as `json_char` says. It cannot fail:
/// its documentation names only failing `Serialize` impls and non-string keys.
/// The keys come sorted and distinct, so the map holds the pairs as given.
#[verifier::external_body]
fn json_object(pairs: &Vec<(String, String)>) -> (r: String)
    requires
        sorted_strict(key_seq(string_pairs(pairs@))),
    ensures
        r@ == json_object_text(string_pairs(pairs@)),
{
    let m: std::collections::BTreeMap<&String, &String> = pairs.iter().map(|p| (&p.0, &p.1)).collect();
    serde_json::to_string(&m).unwrap_or_default()
}

/// Relies on `serde_json::to_string` of a list of strings: compact output,
/// strings escaped as `json_char` says. It cannot fail (see above).
#[verifier::external_body]
fn json_array(items: &Vec<String>) -> (r: String)
    ensures
        r@ == json_array_text(strings(items@)),
{
    serde_json::to_string(items).unwrap_or_default()
}

pub open spec fn strings(v: Seq<String>) -> Seq<Seq<char>> {
    v.map_values(|s: String| s@)
}

pub open spec fn keys_of(kvs: Seq<KeyValue>) -> Seq<Seq<char>> {
    kvs.map_values(|kv: KeyValue| kv.key@)
}

pub open spec fn key_seq(m: Seq<(Seq<char>, Seq<char>)>) -> Seq<Seq<char>> {
    m.map_values(|e: (Seq<char>, Seq<char>)| e.0)
}

/// The arguments, each preceded by one space.
pub open spec fn spaced(args: Seq<Seq<char>>) -> Seq<char>
    decreases args.len(),
{
    if args.len() == 0 {
        seq![]
    } else {
        spaced(args.drop_last()) + seq![' '] + args.last()
    }
}

/// The command line as recorded: the name and the arguments joined by single spaces.
pub open spec fn command_line(name: Seq<char>, args: Seq<Seq<char>>) -> Seq<char> {
    name + spaced(args)
}

/// Strictly increasing by code point, hence without repeats.
pub open spec fn sorted_strict(s: Seq<Seq<char>>) -> bool {
    forall|a: int, b: int| 0 <= a < b < s.len() ==> lex_lt(#[trigger] s[a], #[trigger] s[b])
}

/// `r` is the set of the items of `ks`, in increasing order.
pub open spec fn sorted_set_of(r: Seq<Seq<char>>, ks: Seq<Seq<char>>) -> bool {
    &&& sorted_strict(r)
    &&& forall|x: Seq<char>| r.contains(x) <==> ks.contains(x)
}

/// The value last assigned to `k` by the pairs, if any.
pub open spec fn last_value(p: Seq<(Seq<char>, Seq<char>)>, k: Seq<char>) -> Option<Seq<char>>
    decreases p.len(),
{
    if p.len() == 0 {
        None
    } else if p.last().0 == k {
        Some(p.last().1)
    } else {
        last_value(p.drop_last(), k)
    }
}

/// `m` is the map that assigning the pairs in order yields, in increasing key
/// order: one entry per assigned key, with the value of its last assignment.
pub open spec fn sorted_map_of(m: Seq<(Seq<char>, Seq<char>)>, p: Seq<(Seq<char>, Seq<char>)>) -> bool {
    &&& sorted_strict(key_seq(m))
    &&& forall|k: Seq<char>| key_seq(m).contains(k) <==> last_value(p, k) is Some
    &&& forall|j: int| 0 <= j < m.len() ==> last_value(p, #[trigger] m[j].0) == Some(m[j].1)
}

proof fn lemma_sorted_head_not_in_tail(s: Seq<Seq<char>>)
    requires
        sorted_strict(s),
        s.len() > 0,
    ensures
        !s.drop_first().contains(s[0]),
{
    if s.drop_first().contains(s[0]) {
        let i = choose|i: int| 0 <= i < s.drop_first().len() && s.drop_first()[i] == s[0];
        assert(lex_lt(s[0], s[i + 1]));
        lemma_lex_irreflexive(s[0]);
    }
}

/// Two increasing sequences with the same items are equal.
pub proof fn lemma_sorted_unique(r1: Seq<Seq<char>>, r2: Seq<Seq<char>>)
    requires
        sorted_strict(r1),
        sorted_strict(r2),
        forall|x: Seq<char>| r1.contains(x) <==> r2.contains(x),
    ensures
        r1 == r2,
    decreases r1.len(),
{
    if r1.len() == 0 {
        if r2.len() > 0 {
            assert(r2.contains(r2[0]));
        }
        assert(r1 =~= r2);
    } else {
        assert(r1.contains(r1[0]));
        let j = choose|j: int| 0 <= j < r2.len() && r2[j] == r1[0];
        assert(r2.contains(r2[0]));
        let i = choose|i: int| 0 <= i < r1.len() && r1[i] == r2[0];
        if j > 0 {
            assert(lex_lt(r2[0], r2[j]));
            if i > 0 {
                assert(lex_lt(r1[0], r1[i]));
                lemma_lex_asymmetric(r1[0], r2[0]);
            }
        }
        assert(r1[0] == r2[0]);
        lemma_sorted_head_not_in_tail(r1);
        lemma_sorted_head_not_in_tail(r2);
        let t1 = r1.drop_first();
        let t2 = r2.drop_first();
        assert forall|x: Seq<char>| t1.contains(x) <==> t2.contains(x) by {
            if t1.contains(x) {
                let a = choose|a: int| 0 <= a < t1.len() && t1[a] == x;
                assert(r1[a + 1] == x);
                assert(r2.contains(x));
                let b = choose|b: int| 0 <= b < r2.len() && r2[b] == x;
                assert(b != 0);
                assert(t2[b - 1] == x);
            }
            if t2.contains(x) {
                let a = choose|a: int| 0 <= a < t2.len() && t2[a] == x;
                assert(r2[a + 1] == x);
                assert(r1.contains(x));
                let b = choose|b: int| 0 <= b < r1.len() && r1[b] == x;
                assert(b != 0);
                assert(t1[b - 1] == x);
            }
        }
        lemma_sorted_unique(t1, t2);
        assert(r1 =~= seq![r1[0]] + t1);
        assert(r2 =~= seq![r2[0]] + t2);
    }
}

/// Two maps of the same assignments are equal.
pub proof fn lemma_sorted_map_unique(
    m1: Seq<(Seq<char>, Seq<char>)>,
    m2: Seq<(Seq<char>, Seq<char>)>,
    p: Seq<(Seq<char>, Seq<char>)>,
)
    requires
        sorted_map_of(m1, p),
        sorted_map_of(m2, p),
    ensures
        m1 == m2,
{
    lemma_sorted_unique(key_seq(m1), key_seq(m2));
    assert(key_seq(m1).len() == key_seq(m2).len());
    assert forall|j: int| 0 <= j < m1.len() implies m1[j] == m2[j] by {
        assert(key_seq(m1)[j] == key_seq(m2)[j]);
        assert(last_value(p, m1[j].0) == Some(m1[j].1));
        assert(last_value(p, m2[j].0) == Some(m2[j].1));
    }
    assert(m1 =~= m2);
}

/// Inserting `k` where it belongs keeps a sequence increasing and adds just `k`.
proof fn lemma_insert_sorted(s: Seq<Seq<char>>, j: int, k: Seq<char>)
    requires
        sorted_strict(s),
        0 <= j <= s.len(),
        forall|a: int| 0 <= a < j ==> lex_lt(#[trigger] s[a], k),
        j < s.len() ==> lex_lt(k, s[j]),
    ensures
        sorted_strict(s.insert(j, k)),
        forall|x: Seq<char>| s.insert(j, k).contains(x) <==> (s.contains(x) || x == k),
        !s.contains(k),
{
    let t = s.insert(j, k);
    assert forall|a: int, b: int| 0 <= a < b < t.len() implies lex_lt(#[trigger] t[a], #[trigger] t[b]) by {
        if b < j {
        } else if b == j {
        } else if a < j {
            assert(lex_lt(s[a], s[b - 1]));
        } else if a == j {
            if b - 1 > j {
                assert(lex_lt(s[j], s[b - 1]));
                lemma_lex_transitive(k, s[j], s[b - 1]);
            }
        } else {
            assert(lex_lt(s[a - 1], s[b - 1]));
        }
    }
    assert forall|x: Seq<char>| t.contains(x) <==> (s.contains(x) || x == k) by {
        if t.contains(x) {
            let a = choose|a: int| 0 <= a < t.len() && t[a] == x;
            if a < j {
                assert(s[a] == x);
            } else if a > j {
                assert(s[a - 1] == x);
            }
        }
        if s.contains(x) {
            let a = choose|a: int| 0 <= a < s.len() && s[a] == x;
            if a < j {
                assert(t[a] == x);
            } else {
                assert(t[a + 1] == x);
            }
        }
        if x == k {
            assert(t[j] == k);
        }
    }
    if s.contains(k) {
        let c = choose|c: int| 0 <= c < s.len() && s[c] == k;
        lemma_lex_irreflexive(k);
        if c > j {
            assert(lex_lt(s[j], s[c]));
            lemma_lex_transitive(k, s[j], k);
        }
    }
}

/// Where `k` belongs among the increasing `s`: after every item below it.
fn insertion_point(s: &Vec<String>, k: &String) -> (j: usize)
    requires
        sorted_strict(strings(s@)),
    ensures
        j <= s@.len(),
        forall|a: int| 0 <= a < j ==> lex_lt(#[trigger] strings(s@)[a], k@),
        j < s@.len() ==> !lex_lt(s@[j as int]@, k@),
{
    let mut j: usize = 0;
    while j < s.len() && lex_less(s[j].as_str(), k.as_str())
        invariant
            j <= s@.len(),
            forall|a: int| 0 <= a < j ==> lex_lt(#[trigger] strings(s@)[a], k@),
        decreases s@.len() - j,
    {
        j = j + 1;
    }
    j
}

fn key_insertion_point(m: &Vec<(String, String)>, k: &String) -> (j: usize)
    ensures
        j <= m@.len(),
        forall|a: int| 0 <= a < j ==> lex_lt(#[trigger] key_seq(string_pairs(m@))[a], k@),
        j < m@.len() ==> !lex_lt(m@[j as int].0@, k@),
{
    let mut j: usize = 0;
    while j < m.len() && lex_less(m[j].0.as_str(), k.as_str())
        invariant
            j <= m@.len(),
            forall|a: int| 0 <= a < j ==> lex_lt(#[trigger] key_seq(string_pairs(m@))[a], k@),
        decreases m@.len() - j,
    {
        j = j + 1;
    }
    j
}

/// The command line: the name, then each argument after one space.
pub fn join_command(name: &String, args: &Vec<String>) -> (r: String)
    ensures
        r@ == command_line(name@, strings(args@)),
{
    let mut r = name.clone();
    let mut i: usize = 0;
    while i < args.len()
        invariant
            i <= args@.len(),
            r@ == command_line(name@, strings(args@.subrange(0, i as int))),
        decreases args@.len() - i,
    {
        r.append(" ");
        r.append(args[i].as_str());
        proof {
            reveal_strlit(" ");
            let a = strings(args@.subrange(0, i + 1));
            assert(a.drop_last() =~= strings(args@.subrange(0, i as int)));
            assert(a.last() == args@[i as int]@);
        }
        i = i + 1;
    }
    proof {
        assert(args@.subrange(0, args@.len() as int) =~= args@);
    }
    r
}

/// The keys of the assignments as a set: each once, in increasing order.
pub fn distinct_keys(kvs: &Vec<KeyValue>) -> (r: Vec<String>)
    ensures
        sorted_set_of(strings(r@), keys_of(kvs@)),
{
    let mut r: Vec<String> = Vec::new();
    let mut i: usize = 0;
    proof {
        assert(keys_of(kvs@.subrange(0, 0)) =~= Seq::<Seq<char>>::empty());
        assert(strings(r@) =~= Seq::<Seq<char>>::empty());
    }
    while i < kvs.len()
        invariant
            i <= kvs@.len(),
            sorted_set_of(strings(r@), keys_of(kvs@.subrange(0, i as int))),
        decreases kvs@.len() - i,
    {
        let ghost ks = keys_of(kvs@.subrange(0, i + 1));
        let ghost before = strings(r@);
        let k = &kvs[i].key;
        proof {
            assert(ks =~= keys_of(kvs@.subrange(0, i as int)).push(k@));
        }
        let j = insertion_point(&r, k);
        if j < r.len() && r[j] == *k {
            proof {
                assert(before[j as int] == k@);
                assert forall|x: Seq<char>| before.contains(x) <==> ks.contains(x) by {
                    if x == k@ {
                        assert(before.contains(x));
                        assert(ks[ks.len() - 1] == x);
                    }
                    if ks.contains(x) && x != k@ {
                        let a = choose|a: int| 0 <= a < ks.len() && ks[a] == x;
                        assert(keys_of(kvs@.subrange(0, i as int))[a] == x);
                    }
                    if before.contains(x) && x != k@ {
                        let a = choose|a: int| 0 <= a < keys_of(kvs@.subrange(0, i as int)).len() && keys_of(kvs@.subrange(0, i as int))[a] == x;
                        assert(ks[a] == x);
                    }
                }
            }
        } else {
            proof {
                if j < r@.len() {
                    lemma_lex_total(k@, before[j as int]);
                }
                lemma_insert_sorted(before, j as int, k@);
            }
            r.insert(j, k.clone());
            proof {
                assert(strings(r@) =~= before.insert(j as int, k@));
                assert forall|x: Seq<char>| strings(r@).contains(x) <==> ks.contains(x) by {
                    if x == k@ {
                        assert(ks[ks.len() - 1] == x);
                    }
                    if ks.contains(x) && x != k@ {
                        let a = choose|a: int| 0 <= a < ks.len() && ks[a] == x;
                        assert(keys_of(kvs@.subrange(0, i as int))[a] == x);
                    }
                    if before.contains(x) && x != k@ {
                        let a = choose|a: int| 0 <= a < keys_of(kvs@.subrange(0, i as int)).len() && keys_of(kvs@.subrange(0, i as int))[a] == x;
                        assert(ks[a] == x);
                    }
                }
            }
        }
        i = i + 1;
    }
    proof {
        assert(kvs@.subrange(0, kvs@.len() as int) =~= kvs@);
    }
    r
}

/// The plain assignments as a map: one entry per key, in increasing key
/// order, with the value of the key's last assignment.
pub fn assignments(kvs: &Vec<KeyValue>) -> (r: Vec<(String, String)>)
    ensures
        sorted_map_of(string_pairs(r@), pairs_of(kvs@)),
{
    let mut r: Vec<(String, String)> = Vec::new();
    let mut i: usize = 0;
    proof {
        assert(pairs_of(kvs@.subrange(0, 0)) =~= Seq::<(Seq<char>, Seq<char>)>::empty());
        assert(string_pairs(r@) =~= Seq::<(Seq<char>, Seq<char>)>::empty());
        assert(key_seq(string_pairs(r@)) =~= Seq::<Seq<char>>::empty());
    }
    while i < kvs.len()
        invariant
            i <= kvs@.len(),
            sorted_map_of(string_pairs(r@), pairs_of(kvs@.subrange(0, i as int))),
        decreases kvs@.len() - i,
    {
        let ghost p0 = pairs_of(kvs@.subrange(0, i as int));
        let ghost p1 = pairs_of(kvs@.subrange(0, i + 1));
        let ghost m0 = string_pairs(r@);
        let ghost keys0 = key_seq(m0);
        let kv = &kvs[i];
        proof {
            assert(p1.drop_last() =~= p0);
            assert(p1.last() == (kv.key@, kv.value@));
            assert(forall|x: Seq<char>| #[trigger] last_value(p1, x) == if x == kv.key@ {
                Some(kv.value@)
            } else {
                last_value(p0, x)
            });
        }
        let j = key_insertion_point(&r, &kv.key);
        if j < r.len() && r[j].0 == kv.key {
            r.set(j, (kv.key.clone(), kv.value.clone()));
            proof {
                let m1 = string_pairs(r@);
                assert(m1 =~= m0.update(j as int, (kv.key@, kv.value@)));
                assert(key_seq(m1) =~= keys0);
                assert(keys0[j as int] == kv.key@);
                assert forall|k: Seq<char>| key_seq(m1).contains(k) <==> last_value(p1, k) is Some by {
                    assert(last_value(p1, k) == if k == kv.key@ {
                        Some(kv.value@)
                    } else {
                        last_value(p0, k)
                    });
                    if k == kv.key@ {
                        assert(keys0.contains(k));
                    }
                }
                assert forall|a: int| 0 <= a < m1.len() implies last_value(p1, #[trigger] m1[a].0) == Some(m1[a].1) by {
                    if a != j {
                        assert(m1[a] == m0[a]);
                        assert(last_value(p0, m0[a].0) == Some(m0[a].1));
                        assert(lex_lt(keys0[a], keys0[j as int]) || lex_lt(keys0[j as int], keys0[a]));
                        lemma_lex_irreflexive(keys0[a]);
                        assert(keys0[a] == m0[a].0);
                    }
                }
            }
        } else {
            proof {
                if j < r@.len() {
                    assert(keys0[j as int] == r@[j as int].0@);
                    lemma_lex_total(kv.key@, keys0[j as int]);
                }
                lemma_insert_sorted(keys0, j as int, kv.key@);
            }
            r.insert(j, (kv.key.clone(), kv.value.clone()));
            proof {
                let m1 = string_pairs(r@);
                assert(m1 =~= m0.insert(j as int, (kv.key@, kv.value@)));
                assert(key_seq(m1) =~= keys0.insert(j as int, kv.key@));
                assert(sorted_strict(key_seq(m1)));
                assert forall|k: Seq<char>| key_seq(m1).contains(k) <==> last_value(p1, k) is Some by {
                    assert(last_value(p1, k) == if k == kv.key@ {
                        Some(kv.value@)
                    } else {
                        last_value(p0, k)
                    });
                    assert(keys0.insert(j as int, kv.key@).contains(k) == (keys0.contains(k) || k
                        == kv.key@));
                    assert(keys0.contains(k) == (last_value(p0, k) is Some));
                }
                assert forall|a: int| 0 <= a < m1.len() implies last_value(p1, #[trigger] m1[a].0) == Some(m1[a].1) by {
                    if a < j {
                        assert(m1[a] == m0[a]);
                        assert(keys0[a] == m0[a].0);
                        assert(keys0.contains(m0[a].0));
                        assert(last_value(p0, m0[a].0) == Some(m0[a].1));
                    } else if a > j {
                        assert(m1[a] == m0[a - 1]);
                        assert(keys0[a - 1] == m0[a - 1].0);
                        assert(keys0.contains(m0[a - 1].0));
                        assert(last_value(p0, m0[a - 1].0) == Some(m0[a - 1].1));
                    }
                }
            }
        }
        i = i + 1;
    }
    proof {
        assert(kvs@.subrange(0, kvs@.len() as int) =~= kvs@);
    }
    r
}

/// The declared property types, in this order.
pub open spec fn manifest() -> Seq<(Seq<char>, PropertyType)> {
    seq![
        ("user"@, PropertyType::String),
        ("hostname"@, PropertyType::String),
        ("command"@, PropertyType::String),
        ("exit_code"@, PropertyType::Int),
        ("envvars"@, PropertyType::String),
        ("envvars_secret"@, PropertyType::String),
        ("git_commit"@, PropertyType::String),
        ("git_url"@, PropertyType::String),
        ("git_cwd"@, PropertyType::String),
        ("git_dirty"@, PropertyType::Int),
        ("storage"@, PropertyType::String),
        ("stdout_uri"@, PropertyType::String),
        ("stderr_uri"@, PropertyType::String),
        ("result_uri"@, PropertyType::String),
    ]
}

pub open spec fn text_entry(name: Seq<char>, v: Option<Seq<char>>) -> Seq<(Seq<char>, ValueView)> {
    match v {
        Some(t) => seq![(name, ValueView::Text(t))],
        None => seq![],
    }
}

/// The browsing address of the repository, when its origin has a host.
pub open spec fn git_url_of(git: GitInfo) -> Option<Seq<char>> {
    match git.origin_url.host {
        Some(h) => Some(browse_url(h@, repo_path(git.origin_url))),
        None => None,
    }
}

/// The properties recorded when the execution is created, in this order:
/// `command`, `user` and `hostname` when known, `git_commit`, `git_url` when
/// the origin has a host, `git_cwd`, `git_dirty` (1 or 0), then `envvars` (a
/// JSON object of the plain assignments) and `envvars_secret` (a JSON array of
/// the secret keys), each only when there is one.
pub open spec fn recorded_values(
    command: Seq<char>,
    user: Option<Seq<char>>,
    hostname: Option<Seq<char>>,
    git: GitInfo,
    envvars: Seq<(Seq<char>, Seq<char>)>,
    secret_keys: Seq<Seq<char>>,
) -> Seq<(Seq<char>, ValueView)> {
    seq![("command"@, ValueView::Text(command))] + text_entry("user"@, user) + text_entry(
        "hostname"@,
        hostname,
    ) + seq![("git_commit"@, ValueView::Text(git.commit@))] + text_entry("git_url"@, git_url_of(git))
        + seq![
        ("git_cwd"@, ValueView::Text(git.current_dir@)),
        ("git_dirty"@, ValueView::Int(if git.is_dirty { 1 } else { 0 })),
    ] + (if envvars.len() == 0 {
        seq![]
    } else {
        seq![("envvars"@, ValueView::Text(json_object_text(envvars)))]
    }) + (if secret_keys.len() == 0 {
        seq![]
    } else {
        seq![("envvars_secret"@, ValueView::Text(json_array_text(secret_keys)))]
    })
}

/// The provenance of one run, as recorded with its execution.
pub struct ExecutionProperties {
    pub user: Option<String>,
    pub hostname: Option<String>,
    pub command: String,
    pub git: GitInfo,
    /// The plain assignments: distinct keys in increasing order, each with its last value.
    pub envvars: Vec<(String, String)>,
    /// The keys of the secret assignments, each once, in increasing order;
    /// their values are not kept.
    pub envvars_secret: Vec<String>,
}

impl ExecutionProperties {
    /// The plain assignments are ordered by key without repeats.
    pub open spec fn wf(self) -> bool {
        sorted_strict(key_seq(string_pairs(self.envvars@)))
    }

    /// This provenance records the command, the assignments and the secret
    /// keys of a run with these options.
    pub open spec fn describes(self, opt: RunOpt) -> bool {
        &&& self.command@ == command_line(opt.command_name@, strings(opt.command_args@))
        &&& sorted_map_of(string_pairs(self.envvars@), pairs_of(opt.envs@))
        &&& sorted_set_of(strings(self.envvars_secret@), keys_of(opt.secret_envs@))
    }

    /// The properties that this provenance records.
    pub open spec fn values(self) -> Seq<(Seq<char>, ValueView)> {
        recorded_values(
            self.command@,
            opt_view(self.user),
            opt_view(self.hostname),
            self.git,
            string_pairs(self.envvars@),
            strings(self.envvars_secret@),
        )
    }

    /// The provenance of a run with these options, given the user and host
    /// names when known and the repository snapshot. A dirty working tree is
    /// rejected when the options forbid it.
    pub fn new(opt: &RunOpt, user: Option<String>, hostname: Option<String>, git: GitInfo) -> (r:
        Result<ExecutionProperties, RunError>)
        ensures
            opt.forbid_dirty && git.is_dirty ==> r == Err::<ExecutionProperties, RunError>(
                RunError::DirtyTree,
            ),
            !(opt.forbid_dirty && git.is_dirty) ==> (r matches Ok(p) && p.git == git && p.user
                == user && p.hostname == hostname && p.wf() && p.describes(*opt)),
    {
        if opt.forbid_dirty && git.is_dirty {
            return Err(RunError::DirtyTree);
        }
        let command = join_command(&opt.command_name, &opt.command_args);
        let envvars = assignments(&opt.envs);
        let envvars_secret = distinct_keys(&opt.secret_envs);
        Ok(ExecutionProperties { user, hostname, command, git, envvars, envvars_secret })
    }

    /// The property types declared for every run.
    pub fn property_types(&self) -> (r: Vec<(String, PropertyType)>)
        ensures
            r@.map_values(|e: (String, PropertyType)| (e.0@, e.1)) == manifest(),
    {
        let r = vec![
            ("user".to_owned(), PropertyType::String),
            ("hostname".to_owned(), PropertyType::String),
            ("command".to_owned(), PropertyType::String),
            ("exit_code".to_owned(), PropertyType::Int),
            ("envvars".to_owned(), PropertyType::String),
            ("envvars_secret".to_owned(), PropertyType::String),
            ("git_commit".to_owned(), PropertyType::String),
            ("git_url".to_owned(), PropertyType::String),
            ("git_cwd".to_owned(), PropertyType::String),
            ("git_dirty".to_owned(), PropertyType::Int),
            ("storage".to_owned(), PropertyType::String),
            ("stdout_uri".to_owned(), PropertyType::String),
            ("stderr_uri".to_owned(), PropertyType::String),
            ("result_uri".to_owned(), PropertyType::String),
        ];
        proof {
            reveal_strlit("user");
            reveal_strlit("hostname");
            reveal_strlit("command");
            reveal_strlit("exit_code");
            reveal_strlit("envvars");
            reveal_strlit("envvars_secret");
            reveal_strlit("git_commit");
            reveal_strlit("git_url");
            reveal_strlit("git_cwd");
            reveal_strlit("git_dirty");
            reveal_strlit("storage");
            reveal_strlit("stdout_uri");
            reveal_strlit("stderr_uri");
            reveal_strlit("result_uri");
            assert(r@.map_values(|e: (String, PropertyType)| (e.0@, e.1)) =~= manifest());
        }
        r
    }

    /// The properties recorded when the execution is created.
    pub fn property_values(&self) -> (r: Vec<(String, PropertyValue)>)
        requires
            self.wf(),
        ensures
            entries_view(r@) == self.values(),
    {
        let mut r: Vec<(String, PropertyValue)> = Vec::new();
        r.push(("command".to_owned(), PropertyValue::String(self.command.clone())));
        if let Some(v) = &self.user {
            r.push(("user".to_owned(), PropertyValue::String(v.clone())));
        }
        if let Some(v) = &self.hostname {
            r.push(("hostname".to_owned(), PropertyValue::String(v.clone())));
        }
        r.push(("git_commit".to_owned(), PropertyValue::String(self.git.commit.clone())));
        if let Some(v) = self.git.https_url() {
            r.push(("git_url".to_owned(), PropertyValue::String(v)));
        }
        r.push(("git_cwd".to_owned(), PropertyValue::String(self.git.current_dir.clone())));
        let dirty: i32 = if self.git.is_dirty {
            1
        } else {
            0
        };
        r.push(("git_dirty".to_owned(), PropertyValue::Int(dirty)));
        if self.envvars.len() > 0 {
            r.push(("envvars".to_owned(), PropertyValue::String(json_object(&self.envvars))));
        }
        if self.envvars_secret.len() > 0 {
            r.push(
                ("envvars_secret".to_owned(), PropertyValue::String(json_array(&self.envvars_secret))),
            );
        }
        proof {
            reveal_strlit("command");
            reveal_strlit("user");
            reveal_strlit("hostname");
            reveal_strlit("git_commit");
            reveal_strlit("git_url");
            reveal_strlit("git_cwd");
            reveal_strlit("git_dirty");
            reveal_strlit("envvars");
            reveal_strlit("envvars_secret");
            assert(entries_view(r@) =~= self.values());
        }
        r
    }
}

/// The request that creates the execution record.
pub struct CreationRequest {
    pub state: ExecState,
    pub properties: Vec<(String, PropertyValue)>,
    /// Attached as given, outside the declared manifest.
    pub custom_properties: Vec<(String, String)>,
    pub name: Option<String>,
}

impl ExecutionProperties {
    /// The creation request of a run with these options: state `New`, the
    /// recorded properties, the custom properties as given and the execution
    /// name when there is one.
    pub fn creation_request(&self, opt: &RunOpt) -> (r: CreationRequest)
        requires
            self.wf(),
        ensures
            r.state == ExecState::New,
            entries_view(r.properties@) == self.values(),
            string_pairs(r.custom_properties@) == pairs_of(opt.custom_properties@),
            r.name == opt.execution_name,
    {
        let mut custom: Vec<(String, String)> = Vec::new();
        proof {
            assert(string_pairs(custom@) =~= Seq::<(Seq<char>, Seq<char>)>::empty());
        }
        push_assignments(&mut custom, &opt.custom_properties);
        proof {
            assert(Seq::<(Seq<char>, Seq<char>)>::empty() + pairs_of(opt.custom_properties@)
                =~= pairs_of(opt.custom_properties@));
        }
        let name = match &opt.execution_name {
            Some(n) => Some(n.clone()),
            None => None,
        };
        CreationRequest {
            state: ExecState::New,
            properties: self.property_values(),
            custom_properties: custom,
            name,
        }
    }
}

/// Secret values are never recorded. Two provenances of runs whose options
/// differ only in the values of their secret assignments record the same
/// properties; of those assignments only the keys are recorded, as the JSON
/// array under `envvars_secret`.
pub proof fn lemma_secret_values_not_recorded(
    a: RunOpt,
    b: RunOpt,
    pa: ExecutionProperties,
    pb: ExecutionProperties,
)
    requires
        pa.describes(a),
        pb.describes(b),
        pa.user == pb.user,
        pa.hostname == pb.hostname,
        pa.git == pb.git,
        a.command_name@ == b.command_name@,
        strings(a.command_args@) == strings(b.command_args@),
        pairs_of(a.envs@) == pairs_of(b.envs@),
        keys_of(a.secret_envs@) == keys_of(b.secret_envs@),
    ensures
        pa.values() == pb.values(),
{
    lemma_sorted_map_unique(string_pairs(pa.envvars@), string_pairs(pb.envvars@), pairs_of(a.envs@));
    lemma_sorted_unique(strings(pa.envvars_secret@), strings(pb.envvars_secret@));
}

} // verus!
