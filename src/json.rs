use vstd::prelude::*;

verus! {

/// A JSON number, kept the way a JSON document carries it.
pub enum JsonNumber {
    /// A non-negative integer.
    PosInt(u64),
    /// A negative integer.
    NegInt(i64),
    /// Any other number, held as its decimal text.
    Float(String),
}

/// A JSON document.
pub enum JsonValue {
    Null,
    Bool(bool),
    Number(JsonNumber),
    String(String),
    Array(Vec<JsonValue>),
    /// The members of an object in document order.
    Object(Vec<(String, JsonValue)>),
}

/// The value of the first member of `entries` whose key is `key`.
pub open spec fn lookup(entries: Seq<(String, JsonValue)>, key: Seq<char>) -> Option<JsonValue>
    decreases entries.len(),
{
    if entries.len() == 0 {
        None
    } else {
        match lookup(entries.drop_last(), key) {
            Some(v) => Some(v),
            None => if entries.last().0@ == key {
                Some(entries.last().1)
            } else {
                None
            },
        }
    }
}

/// The text of the first member named `key`, when that member is a string.
pub open spec fn string_member(entries: Seq<(String, JsonValue)>, key: Seq<char>) -> Option<Seq<char>> {
    match lookup(entries, key) {
        Some(JsonValue::String(s)) => Some(s@),
        _ => None,
    }
}

/// The strings among `items`, in order; other items are skipped.
pub open spec fn string_items(items: Seq<JsonValue>) -> Seq<Seq<char>>
    decreases items.len(),
{
    if items.len() == 0 {
        Seq::empty()
    } else {
        let rest = string_items(items.drop_last());
        match items.last() {
            JsonValue::String(s) => rest.push(s@),
            _ => rest,
        }
    }
}

/// The texts held by a sequence of strings.
pub open spec fn texts(v: Seq<String>) -> Seq<Seq<char>> {
    v.map_values(|s: String| s@)
}

/// The text held by an optional string.
pub open spec fn opt_text(o: Option<String>) -> Option<Seq<char>> {
    match o {
        Some(s) => Some(s@),
        None => None,
    }
}

/// Some member of `entries` is named `key`.
pub open spec fn has_key(entries: Seq<(String, JsonValue)>, key: Seq<char>) -> bool {
    exists|j: int| 0 <= j < entries.len() && (#[trigger] entries[j]).0@ == key
}

/// The strings among `items`, in order, dropping every other item.
pub fn take_strings(items: Vec<JsonValue>) -> (r: Vec<String>)
    ensures
        texts(r@) == string_items(items@),
{
    let ghost orig = items@;
    let n: usize = items.len();
    let mut rest = items;
    let mut out: Vec<String> = Vec::new();
    let mut i: usize = 0;
    while rest.len() > 0
        invariant
            i <= orig.len(),
            i + rest@.len() == orig.len(),
            orig.len() == n,
            rest@ == orig.subrange(i as int, orig.len() as int),
            texts(out@) == string_items(orig.subrange(0, i as int)),
        decreases rest.len(),
    {
        let item = rest.remove(0);
        proof {
            assert(orig.subrange(0, i + 1).drop_last() =~= orig.subrange(0, i as int));
        }
        match item {
            JsonValue::String(s) => {
                let ghost before = out@;
                out.push(s);
                assert(texts(out@) =~= texts(before).push(out@.last()@));
            },
            _ => {},
        }
        i = i + 1;
    }
    assert(orig.subrange(0, orig.len() as int) =~= orig);
    out
}

/// Whether some member of `entries` is named `key`.
pub fn contains_key(entries: &Vec<(String, JsonValue)>, key: &String) -> (r: bool)
    ensures
        r == has_key(entries@, key@),
{
    let mut j: usize = 0;
    while j < entries.len()
        invariant
            j <= entries@.len(),
            forall|k: int| 0 <= k < j ==> (#[trigger] entries@[k]).0@ != key@,
        decreases entries@.len() - j,
    {
        if entries[j].0 == *key {
            return true;
        }
        j = j + 1;
    }
    false
}

/// A prefix that already holds a member named `key` decides the lookup.
pub proof fn lemma_lookup_prefix(s: Seq<(String, JsonValue)>, i: int, key: Seq<char>)
    requires
        0 <= i <= s.len(),
        lookup(s.subrange(0, i), key) is Some,
    ensures
        lookup(s, key) == lookup(s.subrange(0, i), key),
    decreases s.len(),
{
    if s.len() > i {
        assert(s.drop_last().subrange(0, i) =~= s.subrange(0, i));
        lemma_lookup_prefix(s.drop_last(), i, key);
    } else {
        assert(s.subrange(0, i) =~= s);
    }
}

/// Extending a prefix by one member.
pub proof fn lemma_lookup_step(s: Seq<(String, JsonValue)>, i: int, key: Seq<char>)
    requires
        0 <= i < s.len(),
    ensures
        lookup(s.subrange(0, i + 1), key) == match lookup(s.subrange(0, i), key) {
            Some(v) => Some(v),
            None => if s[i].0@ == key {
                Some(s[i].1)
            } else {
                None
            },
        },
{
    assert(s.subrange(0, i + 1).drop_last() =~= s.subrange(0, i));
}

/// The value of the first member named `key`.
pub fn member<'a>(entries: &'a Vec<(String, JsonValue)>, key: &str) -> (r: Option<&'a JsonValue>)
    ensures
        match r {
            Some(v) => lookup(entries@, key@) == Some(*v),
            None => lookup(entries@, key@) is None,
        },
{
    let mut j: usize = 0;
    while j < entries.len()
        invariant
            j <= entries@.len(),
            lookup(entries@.subrange(0, j as int), key@) is None,
        decreases entries@.len() - j,
    {
        proof {
            lemma_lookup_step(entries@, j as int, key@);
        }
        if text_is(&entries[j].0, key) {
            proof {
                lemma_lookup_prefix(entries@, j + 1, key@);
            }
            return Some(&entries[j].1);
        }
        j = j + 1;
    }
    assert(entries@.subrange(0, j as int) =~= entries@);
    None
}

/// A copy of a list of strings.
pub fn copy_strings(v: &Vec<String>) -> (r: Vec<String>)
    ensures
        texts(r@) == texts(v@),
{
    let mut out: Vec<String> = Vec::new();
    let mut j: usize = 0;
    while j < v.len()
        invariant
            j <= v@.len(),
            texts(out@) == texts(v@.subrange(0, j as int)),
        decreases v@.len() - j,
    {
        let ghost before = out@;
        out.push(v[j].clone());
        assert(texts(out@) =~= texts(before).push(v@[j as int]@));
        assert(texts(v@.subrange(0, j + 1)) =~= texts(v@.subrange(0, j as int)).push(v@[j as int]@));
        j = j + 1;
    }
    assert(v@.subrange(0, j as int) =~= v@);
    out
}

/// `prefix` followed by `s`.
pub fn joined(prefix: &str, s: &str) -> (r: String)
    ensures
        r@ == prefix@ + s@,
{
    let mut r = String::from_str(prefix);
    r.append(s);
    r
}

/// `s` holds exactly the characters of `lit`.
pub fn text_is(s: &String, lit: &str) -> (r: bool)
    ensures
        r == (s@ == lit@),
{
    let t = String::from_str(lit);
    *s == t
}

} // verus!
