use vstd::prelude::*;

use crate::text::{chars_of, str_eq, string_of};
use serde_json::Value;

verus! {

/// A JSON value as the logic reads it: the compact text that `serde_json` writes for it
/// (`Value::to_string`), its string content when it is a string (`Value::as_str`), and its
/// members, in the order of their keys, when it is an object (none otherwise).
pub struct JsonNode {
    pub text: String,
    pub str_value: Option<String>,
    pub members: Vec<(String, JsonNode)>,
}

/// The outer level of a JSON value, one variant for each of `serde_json::Value`'s: a number by
/// its text, a string by its content, and the elements and members of an array or an object by
/// the compact text of each (members in the order of their keys).
pub enum JsonLevel {
    Null,
    Bool(bool),
    Number(String),
    Str(String),
    Array(Vec<String>),
    Object(Vec<(String, String)>),
}

/// What `serde_json::from_str::<Value>` reads from `text`: the compact text of the value and
/// its outer level, or the message of the error it gives.
pub uninterp spec fn json_level_of(text: Seq<char>) -> Result<(Seq<char>, JsonLevel), Seq<char>>;

/// Calls `serde_json::from_str::<Value>` on `text` and hands back the value's compact text
/// (`to_string`) and its outer level, each nested value as its compact text; or the error's
/// message.
/// Trusted: the result is what the name `json_level_of` stands for.
#[verifier::external_body]
fn parse_json_level(text: &str) -> (r: Result<(String, JsonLevel), String>)
    ensures
        match r {
            Ok((t, l)) => json_level_of(text@) == Ok::<(Seq<char>, JsonLevel), Seq<char>>((t@, l)),
            Err(m) => json_level_of(text@) == Err::<(Seq<char>, JsonLevel), Seq<char>>(m@),
        },
{
    let v: Value = serde_json::from_str(text).map_err(|e| e.to_string())?;
    let t = v.to_string();
    Ok((t, match v {
        Value::Null => JsonLevel::Null,
        Value::Bool(b) => JsonLevel::Bool(b),
        Value::Number(n) => JsonLevel::Number(n.to_string()),
        Value::String(s) => JsonLevel::Str(s),
        Value::Array(a) => JsonLevel::Array(a.iter().map(|x| x.to_string()).collect()),
        Value::Object(m) => JsonLevel::Object(m.iter().map(|(k, x)| (k.clone(), x.to_string())).collect()),
    }))
}

/// How many levels deep `read_json` reads objects: `serde_json::from_str` refuses values
/// nested more than 127 levels deep, so this reaches every member of what it accepts.
pub const JSON_DEPTH: u32 = 129;

/// The string content of a level, if it is a string.
pub open spec fn level_str(l: JsonLevel) -> Option<Seq<char>> {
    match l {
        JsonLevel::Str(s) => Some(s@),
        _ => None,
    }
}

/// The view of an optional string.
pub open spec fn opt_view(s: Option<String>) -> Option<Seq<char>> {
    match s {
        Some(x) => Some(x@),
        None => None,
    }
}

/// The first error met in reading `text` and its object members `depth` levels deep (members
/// in order, each before the next), or none.
pub open spec fn json_error(text: Seq<char>, depth: nat) -> Option<Seq<char>>
    decreases depth, 1int, 0int,
{
    match json_level_of(text) {
        Err(m) => Some(m),
        Ok((_, JsonLevel::Object(ms))) => members_error(ms@, depth, 0),
        Ok(_) => None,
    }
}

/// The first error met in reading the members of `ms` from position `i` on, one level less
/// deep than `depth`.
pub open spec fn members_error(ms: Seq<(String, String)>, depth: nat, i: nat) -> Option<Seq<char>>
    decreases depth, 0int, ms.len() - i,
{
    if depth == 0 || i >= ms.len() {
        None
    } else {
        match json_error(ms[i as int].1@, (depth - 1) as nat) {
            Some(m) => Some(m),
            None => members_error(ms, depth, i + 1),
        }
    }
}

/// Whether `n` is the value read from `text`, its object members followed `depth` levels deep:
/// the compact text, the string content, and the members with their keys, in order.
pub open spec fn node_read(text: Seq<char>, depth: nat, n: JsonNode) -> bool
    decreases depth,
{
    match json_level_of(text) {
        Err(_) => false,
        Ok((t, level)) => {
            &&& n.text@ == t
            &&& opt_view(n.str_value) == level_str(level)
            &&& match level {
                JsonLevel::Object(ms) => if depth > 0 {
                    &&& n.members@.len() == ms@.len()
                    &&& forall|i: int|
                        0 <= i < ms@.len() ==> (#[trigger] n.members@[i]).0@ == ms@[i].0@ && node_read(
                            ms@[i].1@,
                            (depth - 1) as nat,
                            n.members@[i].1,
                        )
                } else {
                    n.members@.len() == 0
                },
                _ => n.members@.len() == 0,
            }
        },
    }
}

fn read_node(text: &str, depth: u32) -> (r: Result<JsonNode, String>)
    ensures
        r is Err <==> json_error(text@, depth as nat) is Some,
        r matches Err(m) ==> json_error(text@, depth as nat) == Some(m@),
        r matches Ok(n) ==> node_read(text@, depth as nat, n),
    decreases depth,
{
    let (t, level) = match parse_json_level(text) {
        Ok(x) => x,
        Err(m) => {
            return Err(m);
        },
    };
    let str_value = match &level {
        JsonLevel::Str(s) => Some(s.clone()),
        _ => None,
    };
    let mut members: Vec<(String, JsonNode)> = Vec::new();
    match &level {
        JsonLevel::Object(ms) => {
            if depth > 0 {
                let mut i: usize = 0;
                while i < ms.len()
                    invariant
                        depth > 0,
                        json_level_of(text@) == Ok::<(Seq<char>, JsonLevel), Seq<char>>((t@, level)),
                        level == JsonLevel::Object(*ms),
                        i <= ms@.len(),
                        members@.len() == i,
                        members_error(ms@, depth as nat, 0) == members_error(ms@, depth as nat, i as nat),
                        forall|j: int|
                            0 <= j < i ==> (#[trigger] members@[j]).0@ == ms@[j].0@ && node_read(
                                ms@[j].1@,
                                (depth - 1) as nat,
                                members@[j].1,
                            ),
                    decreases ms@.len() - i,
                {
                    match read_node(ms[i].1.as_str(), depth - 1) {
                        Ok(n) => {
                            members.push((ms[i].0.clone(), n));
                        },
                        Err(m) => {
                            assert(members_error(ms@, depth as nat, i as nat) == Some(m@));
                            return Err(m);
                        },
                    }
                    i = i + 1;
                }
            }
        },
        _ => {},
    }
    Ok(JsonNode { text: t, str_value, members })
}

/// Reads the text `body` as JSON, as `serde_json::from_str::<Value>` does: the value, or the
/// message of the first error met.
pub fn read_json(body: &str) -> (r: Result<JsonNode, String>)
    ensures
        r is Err <==> json_error(body@, JSON_DEPTH as nat) is Some,
        r matches Err(m) ==> json_error(body@, JSON_DEPTH as nat) == Some(m@),
        r matches Ok(n) ==> node_read(body@, JSON_DEPTH as nat, n),
{
    read_node(body, JSON_DEPTH)
}

/// Whether some member of `ms` has the key `key`.
pub open spec fn has_key(ms: Seq<(String, JsonNode)>, key: Seq<char>) -> bool {
    exists|i: int| 0 <= i < ms.len() && (#[trigger] ms[i]).0@ == key
}

/// Whether `i` is the first member of `ms` with the key `key`.
pub open spec fn first_with_key(ms: Seq<(String, JsonNode)>, key: Seq<char>, i: int) -> bool {
    &&& 0 <= i < ms.len()
    &&& ms[i].0@ == key
    &&& forall|j: int| 0 <= j < i ==> (#[trigger] ms[j]).0@ != key
}

/// The member of `n` with key `key`, as `Value::get` finds it.
pub open spec fn lookup(n: JsonNode, key: Seq<char>) -> Option<JsonNode> {
    if has_key(n.members@, key) {
        Some(n.members@[choose|i: int| first_with_key(n.members@, key, i)].1)
    } else {
        None
    }
}

/// `lookup` on an optional node.
pub open spec fn lookup_in(n: Option<JsonNode>, key: Seq<char>) -> Option<JsonNode> {
    match n {
        Some(m) => lookup(m, key),
        None => None,
    }
}

/// The text of an optional node with its surrounding quotes trimmed
/// (`value.to_string().trim_matches('"')`).
pub open spec fn trimmed_text(n: Option<JsonNode>) -> Option<Seq<char>> {
    match n {
        Some(m) => Some(trim_quotes(m.text@)),
        None => None,
    }
}

proof fn lemma_first_with_key_unique(ms: Seq<(String, JsonNode)>, key: Seq<char>, i: int, j: int)
    requires
        first_with_key(ms, key, i),
        first_with_key(ms, key, j),
    ensures
        i == j,
{
    if i < j {
        assert(ms[i].0@ != key);
    } else if j < i {
        assert(ms[j].0@ != key);
    }
}

impl JsonNode {
    /// The member with key `key` (`Value::get(key)`): none when the value is not an object or
    /// has no such key.
    pub fn get(&self, key: &str) -> (r: Option<&JsonNode>)
        ensures
            r is None <==> !has_key(self.members@, key@),
            r matches Some(n) ==> exists|i: int|
                first_with_key(self.members@, key@, i) && *n == #[trigger] self.members@[i].1,
            r matches Some(n) ==> lookup(*self, key@) == Some(*n),
            r is None ==> lookup(*self, key@) is None,
    {
        let mut i: usize = 0;
        while i < self.members.len()
            invariant
                i <= self.members@.len(),
                forall|j: int| 0 <= j < i ==> (#[trigger] self.members@[j]).0@ != key@,
            decreases self.members@.len() - i,
        {
            if str_eq(self.members[i].0.as_str(), key) {
                let ghost k = i as int;
                assert(first_with_key(self.members@, key@, k));
                proof {
                    let c = choose|c: int| first_with_key(self.members@, key@, c);
                    lemma_first_with_key_unique(self.members@, key@, c, k);
                }
                return Some(&self.members[i].1);
            }
            i = i + 1;
        }
        None
    }
}

/// Whether `a` and `b` are both absent, or both values read from the text `c`, `depth` levels
/// deep.
pub open spec fn same_reading(a: Option<JsonNode>, b: Option<JsonNode>, c: Seq<char>, depth: nat) -> bool {
    match (a, b) {
        (None, None) => true,
        (Some(x), Some(y)) => node_read(c, depth, x) && node_read(c, depth, y),
        _ => false,
    }
}

/// Two readings of one text have the same text and string content, so the same trimmed text.
pub proof fn lemma_same_reading_text(a: Option<JsonNode>, b: Option<JsonNode>, c: Seq<char>, depth: nat)
    requires
        same_reading(a, b, c, depth),
    ensures
        trimmed_text(a) == trimmed_text(b),
        a matches Some(x) ==> b matches Some(y) && opt_view(x.str_value) == opt_view(y.str_value)
            && x.text@ == y.text@,
{
}

/// Law: looking a key up in two readings of one text finds the same member, read from the same
/// text one level less deep (or nothing in both).
pub proof fn lemma_lookup_read(a: Option<JsonNode>, b: Option<JsonNode>, c: Seq<char>, depth: nat, key: Seq<char>) -> (m: Seq<char>)
    requires
        depth > 0,
        same_reading(a, b, c, depth),
    ensures
        same_reading(lookup_in(a, key), lookup_in(b, key), m, (depth - 1) as nat),
{
    match (a, b) {
        (Some(x), Some(y)) => {
            match json_level_of(c) {
                Ok((_, JsonLevel::Object(ms))) => {
                    let xs = x.members@;
                    let ys = y.members@;
                    assert forall|i: int| 0 <= i < xs.len() implies xs[i].0@ == ys[i].0@ by {
                        assert(xs[i].0@ == ms@[i].0@);
                        assert(ys[i].0@ == ms@[i].0@);
                    }
                    if has_key(xs, key) {
                        let i = choose|i: int| 0 <= i < xs.len() && (#[trigger] xs[i]).0@ == key;
                        assert(ys[i].0@ == key);
                        assert(has_key(ys, key));
                        let ix = choose|j: int| first_with_key(xs, key, j);
                        let iy = choose|j: int| first_with_key(ys, key, j);
                        lemma_first_key_exists(xs, key);
                        lemma_first_key_exists(ys, key);
                        assert(first_with_key(ys, key, ix)) by {
                            assert forall|j: int| 0 <= j < ix implies (#[trigger] ys[j]).0@ != key by {
                                assert(xs[j].0@ != key);
                            }
                        }
                        lemma_first_with_key_unique(ys, key, ix, iy);
                        assert(node_read(ms@[ix].1@, (depth - 1) as nat, xs[ix].1));
                        assert(node_read(ms@[ix].1@, (depth - 1) as nat, ys[ix].1));
                        ms@[ix].1@
                    } else {
                        if has_key(ys, key) {
                            let i = choose|i: int| 0 <= i < ys.len() && (#[trigger] ys[i]).0@ == key;
                            assert(xs[i].0@ == key);
                        }
                        Seq::empty()
                    }
                },
                _ => {
                    assert(!has_key(x.members@, key));
                    assert(!has_key(y.members@, key));
                    Seq::empty()
                },
            }
        },
        _ => Seq::empty(),
    }
}

proof fn lemma_first_key_exists(ms: Seq<(String, JsonNode)>, key: Seq<char>)
    requires
        has_key(ms, key),
    ensures
        exists|j: int| first_with_key(ms, key, j),
    decreases ms.len(),
{
    if ms.len() > 0 && ms[0].0@ == key {
        assert(first_with_key(ms, key, 0));
    } else {
        let i = choose|i: int| 0 <= i < ms.len() && (#[trigger] ms[i]).0@ == key;
        let rest = ms.drop_first();
        assert(rest[i - 1] == ms[i]);
        lemma_first_key_exists(rest, key);
        let j = choose|j: int| first_with_key(rest, key, j);
        assert(first_with_key(ms, key, j + 1)) by {
            assert forall|k: int| 0 <= k < j + 1 implies (#[trigger] ms[k]).0@ != key by {
                if k > 0 {
                    assert(ms[k] == rest[k - 1]);
                }
            }
        }
    }
}

/// `s` without its leading `"` characters.
pub open spec fn trim_start_quotes(s: Seq<char>) -> Seq<char>
    decreases s.len(),
{
    if s.len() > 0 && s[0] == '"' {
        trim_start_quotes(s.drop_first())
    } else {
        s
    }
}

/// `s` without its trailing `"` characters.
pub open spec fn trim_end_quotes(s: Seq<char>) -> Seq<char>
    decreases s.len(),
{
    if s.len() > 0 && s.last() == '"' {
        trim_end_quotes(s.drop_last())
    } else {
        s
    }
}

/// `s.trim_matches('"')`: all leading and trailing `"` characters removed.
pub open spec fn trim_quotes(s: Seq<char>) -> Seq<char> {
    trim_end_quotes(trim_start_quotes(s))
}

proof fn lemma_trim_start_skip(s: Seq<char>, i: int)
    requires
        0 <= i <= s.len(),
        forall|j: int| 0 <= j < i ==> s[j] == '"',
    ensures
        trim_start_quotes(s) == trim_start_quotes(s.skip(i)),
    decreases i,
{
    if i > 0 {
        assert(s.skip(1).skip(i - 1) =~= s.skip(i));
        lemma_trim_start_skip(s.skip(1), i - 1);
        assert(s.drop_first() =~= s.skip(1));
    } else {
        assert(s.skip(0) =~= s);
    }
}

proof fn lemma_trim_end_take(s: Seq<char>, k: int)
    requires
        0 <= k <= s.len(),
        forall|j: int| k <= j < s.len() ==> s[j] == '"',
    ensures
        trim_end_quotes(s) == trim_end_quotes(s.take(k)),
    decreases s.len() - k,
{
    if k < s.len() {
        assert(s.drop_last().take(k) =~= s.take(k));
        lemma_trim_end_take(s.drop_last(), k);
    } else {
        assert(s.take(k) =~= s);
    }
}

/// `s.trim_matches('"')`.
pub fn trim_quotes_str(s: &str) -> (r: String)
    ensures
        r@ == trim_quotes(s@),
{
    let v = chars_of(s);
    let n = v.len();
    let mut i: usize = 0;
    while i < n && v[i] == '"'
        invariant
            n == v@.len(),
            i <= n,
            forall|j: int| 0 <= j < i ==> v@[j] == '"',
        decreases n - i,
    {
        i = i + 1;
    }
    let mut k: usize = n;
    while k > i && v[k - 1] == '"'
        invariant
            n == v@.len(),
            i <= k <= n,
            forall|j: int| k <= j < n ==> v@[j] == '"',
        decreases k - i,
    {
        k = k - 1;
    }
    let mut out: Vec<char> = Vec::new();
    let mut j: usize = i;
    while j < k
        invariant
            i <= j <= k <= n,
            n == v@.len(),
            out@ == v@.subrange(i as int, j as int),
        decreases k - j,
    {
        out.push(v[j]);
        assert(v@.subrange(i as int, j + 1) =~= v@.subrange(i as int, j as int).push(v@[j as int]));
        j = j + 1;
    }
    proof {
        lemma_trim_start_skip(v@, i as int);
        let t = v@.skip(i as int);
        if i < n {
            assert(t[0] != '"');
        }
        assert(trim_start_quotes(t) == t);
        lemma_trim_end_take(t, (k - i) as int);
        assert(t.take((k - i) as int) =~= v@.subrange(i as int, k as int));
        let u = v@.subrange(i as int, k as int);
        if u.len() > 0 {
            assert(u.last() == v@[k - 1]);
        }
        assert(trim_end_quotes(u) == u);
    }
    string_of(&out)
}

proof fn lemma_trim_start_shape(s: Seq<char>)
    ensures
        trim_start_quotes(s).len() == 0 || trim_start_quotes(s)[0] != '"',
    decreases s.len(),
{
    if s.len() > 0 && s[0] == '"' {
        lemma_trim_start_shape(s.drop_first());
    }
}

proof fn lemma_trim_end_shape(s: Seq<char>)
    ensures
        trim_end_quotes(s).len() <= s.len(),
        trim_end_quotes(s) == s.take(trim_end_quotes(s).len() as int),
        trim_end_quotes(s).len() == 0 || trim_end_quotes(s).last() != '"',
    decreases s.len(),
{
    if s.len() > 0 && s.last() == '"' {
        lemma_trim_end_shape(s.drop_last());
        let r = trim_end_quotes(s);
        assert(s.drop_last().take(r.len() as int) =~= s.take(r.len() as int));
    } else {
        assert(s.take(s.len() as int) =~= s);
    }
}

/// Law: `trim_matches('"')` leaves no `"` at either end, so trimming twice is trimming once.
pub proof fn lemma_trim_quotes_idempotent(s: Seq<char>)
    ensures
        trim_quotes(s).len() == 0 || (trim_quotes(s)[0] != '"' && trim_quotes(s).last() != '"'),
        trim_quotes(trim_quotes(s)) == trim_quotes(s),
{
    let a = trim_start_quotes(s);
    let b = trim_end_quotes(a);
    lemma_trim_start_shape(s);
    lemma_trim_end_shape(a);
    if b.len() > 0 {
        assert(b[0] == a[0]);
    }
    assert(trim_start_quotes(b) == b);
    assert(trim_end_quotes(b) == b);
}

/// Law: a value written as a JSON string reads as the same text as the bare value. Quoting a
/// text with no `"` at either end and trimming the quotes gives the text back, as trimming the
/// bare text does; so `"990"` and `990` give the same field.
pub proof fn lemma_quoted_reads_as_bare(t: Seq<char>)
    requires
        t.len() == 0 || (t[0] != '"' && t.last() != '"'),
    ensures
        trim_quotes(seq!['"'] + t + seq!['"']) == t,
        trim_quotes(t) == t,
{
    let q = seq!['"'] + t + seq!['"'];
    let u = t + seq!['"'];
    assert(q[0] == '"');
    assert(q.drop_first() =~= u);
    if t.len() == 0 {
        assert(u.drop_first() =~= t);
        assert(trim_start_quotes(t) == t);
        assert(u[0] == '"');
        assert(trim_start_quotes(u) == t);
        assert(trim_start_quotes(q) == t);
        assert(trim_end_quotes(t) == t);
    } else {
        assert(u[0] == t[0]);
        assert(trim_start_quotes(u) == u);
        assert(trim_start_quotes(q) == u);
        assert(u.last() == '"');
        assert(u.drop_last() =~= t);
        assert(trim_start_quotes(t) == t);
        assert(trim_end_quotes(t) == t);
        assert(trim_end_quotes(u) == t);
    }
}

} // verus!
