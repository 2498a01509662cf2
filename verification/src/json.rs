//! JSON values as the library builds and reads them: the data of tool
//! outputs, run events and schemas.
use vstd::prelude::*;
use crate::text::{decimal, push_char, push_decimal_u64, push_str, to_chars};

verus! {

/// A JSON value. Object members keep their insertion order; numbers are
/// integers.
#[derive(Debug)]
pub enum Json {
    Null,
    Bool(bool),
    Int(i64),
    UInt(u64),
    Str(String),
    Array(Vec<Json>),
    Object(Vec<(String, Json)>),
}

/// Mathematical view of a JSON value.
pub enum JsonView {
    Null,
    Bool(bool),
    Int(i64),
    UInt(u64),
    Str(Seq<char>),
    Array(Seq<JsonView>),
    Object(Seq<(Seq<char>, JsonView)>),
}

/// Views of a sequence of values.
pub open spec fn json_views(s: Seq<Json>) -> Seq<JsonView>
    decreases s, 1int,
{
    if s.len() == 0 {
        seq![]
    } else {
        json_views(s.subrange(0, s.len() - 1)).push(json_view(s[s.len() - 1]))
    }
}

/// Views of a sequence of members.
pub open spec fn member_views(s: Seq<(String, Json)>) -> Seq<(Seq<char>, JsonView)>
    decreases s, 1int,
{
    if s.len() == 0 {
        seq![]
    } else {
        member_views(s.subrange(0, s.len() - 1)).push(
            (s[s.len() - 1].0@, json_view(s[s.len() - 1].1)),
        )
    }
}

/// View of a value.
pub open spec fn json_view(j: Json) -> JsonView
    decreases j, 0int,
{
    match j {
        Json::Null => JsonView::Null,
        Json::Bool(b) => JsonView::Bool(b),
        Json::Int(n) => JsonView::Int(n),
        Json::UInt(n) => JsonView::UInt(n),
        Json::Str(s) => JsonView::Str(s@),
        Json::Array(v) => JsonView::Array(json_views(v@)),
        Json::Object(m) => JsonView::Object(member_views(m@)),
    }
}

impl View for Json {
    type V = JsonView;

    open spec fn view(&self) -> JsonView {
        json_view(*self)
    }
}

impl Json {
    /// A deep copy of this value.
    #[verifier::loop_isolation(false)]
    pub fn deep_copy(&self) -> (r: Json)
        ensures
            r@ == self@,
        decreases self,
    {
        match self {
            Json::Null => Json::Null,
            Json::Bool(b) => Json::Bool(*b),
            Json::Int(n) => Json::Int(*n),
            Json::UInt(n) => Json::UInt(*n),
            Json::Str(s) => Json::Str(s.clone()),
            Json::Array(v) => {
                let mut out: Vec<Json> = Vec::new();
                let mut i: usize = 0;
                while i < v.len()
                    invariant
                        i <= v@.len(),
                        json_views(out@) == json_views(v@.subrange(0, i as int)),
                    decreases v@.len() - i,
                {
                    proof {
                        assert(decreases_to!(*self => *v));
                        assert(decreases_to!(*v => v@));
                        assert(decreases_to!(v@ => v@[i as int]));
                    }
                    let c = v[i].deep_copy();
                    let ghost before = out@;
                    out.push(c);
                    assert(out@.subrange(0, out@.len() - 1) =~= before);
                    assert(v@.subrange(0, i + 1).subrange(0, i as int) =~= v@.subrange(0, i as int));
                    i = i + 1;
                }
                assert(v@.subrange(0, v@.len() as int) =~= v@);
                Json::Array(out)
            },
            Json::Object(m) => {
                let mut out: Vec<(String, Json)> = Vec::new();
                let mut i: usize = 0;
                while i < m.len()
                    invariant
                        i <= m@.len(),
                        member_views(out@) == member_views(m@.subrange(0, i as int)),
                    decreases m@.len() - i,
                {
                    let k = m[i].0.clone();
                    proof {
                        assert(decreases_to!(*self => *m));
                        assert(decreases_to!(*m => m@));
                        assert(decreases_to!(m@ => m@[i as int]));
                        assert(decreases_to!(m@[i as int] => m@[i as int].1));
                    }
                    let c = m[i].1.deep_copy();
                    let ghost before = out@;
                    out.push((k, c));
                    assert(out@.subrange(0, out@.len() - 1) =~= before);
                    assert(m@.subrange(0, i + 1).subrange(0, i as int) =~= m@.subrange(0, i as int));
                    i = i + 1;
                }
                assert(m@.subrange(0, m@.len() as int) =~= m@);
                Json::Object(out)
            },
        }
    }
}

/// The value of the first member named `key`, if any.
pub open spec fn lookup(ms: Seq<(Seq<char>, JsonView)>, key: Seq<char>) -> Option<JsonView>
    decreases ms.len(),
{
    if ms.len() == 0 {
        None
    } else if ms[0].0 == key {
        Some(ms[0].1)
    } else {
        lookup(ms.drop_first(), key)
    }
}

/// The member `key` of an object, if it is a string.
pub open spec fn str_member(j: JsonView, key: Seq<char>) -> Option<Seq<char>> {
    match j {
        JsonView::Object(ms) => match lookup(ms, key) {
            Some(JsonView::Str(s)) => Some(s),
            _ => None,
        },
        _ => None,
    }
}

/// The member `key` of an object, if it is a non-negative integer.
pub open spec fn uint_member(j: JsonView, key: Seq<char>) -> Option<u64> {
    match j {
        JsonView::Object(ms) => match lookup(ms, key) {
            Some(JsonView::UInt(n)) => Some(n),
            Some(JsonView::Int(n)) => if n >= 0 {
                Some(n as u64)
            } else {
                None
            },
            _ => None,
        },
        _ => None,
    }
}

/// Appends a member to an object under construction.
pub fn push_member(members: &mut Vec<(String, Json)>, key: &str, value: Json)
    ensures
        member_views(final(members)@) == member_views(old(members)@).push((key@, value@)),
{
    let ghost before = members@;
    members.push((key.to_string(), value));
    assert(members@.subrange(0, members@.len() - 1) =~= before);
}

/// A JSON string holding `s`.
pub fn json_str(s: &str) -> (j: Json)
    ensures
        j@ == JsonView::Str(s@),
{
    Json::Str(s.to_string())
}

impl Json {
    /// The member `key` of this object, if it is a string (`value[key].as_str()`).
    pub fn get_str(&self, key: &str) -> (r: Option<String>)
        ensures
            match r {
                Some(s) => str_member(self@, key@) == Some(s@),
                None => str_member(self@, key@) is None,
            },
    {
        match self {
            Json::Object(m) => {
                match member_index(m, key) {
                    Some(i) => match &m[i].1 {
                        Json::Str(s) => Some(s.clone()),
                        _ => None,
                    },
                    None => None,
                }
            },
            _ => None,
        }
    }

    /// The member `key` of this object, if it is a non-negative integer
    /// (`value[key].as_u64()`).
    pub fn get_u64(&self, key: &str) -> (r: Option<u64>)
        ensures
            r == uint_member(self@, key@),
    {
        match self {
            Json::Object(m) => {
                match member_index(m, key) {
                    Some(i) => match &m[i].1 {
                        Json::UInt(n) => Some(*n),
                        Json::Int(n) => if *n >= 0 {
                            Some(*n as u64)
                        } else {
                            None
                        },
                        _ => None,
                    },
                    None => None,
                }
            },
            _ => None,
        }
    }
}

/// Position of the first member named `key`; its value is what `lookup` gives.
fn member_index(m: &Vec<(String, Json)>, key: &str) -> (r: Option<usize>)
    ensures
        match r {
            Some(i) => i < m@.len() && lookup(member_views(m@), key@) == Some(json_view(m@[i as int].1)),
            None => lookup(member_views(m@), key@) is None,
        },
{
    let ghost ms = member_views(m@);
    proof {
        lemma_member_views_len(m@);
        assert(ms.skip(0) =~= ms);
    }
    let mut i: usize = 0;
    while i < m.len()
        invariant
            i <= m@.len(),
            ms == member_views(m@),
            ms.len() == m@.len(),
            lookup(ms, key@) == lookup(ms.skip(i as int), key@),
        decreases m@.len() - i,
    {
        proof {
            lemma_member_view_at(m@, i as int);
        }
        if crate::text::str_eq(m[i].0.as_str(), key) {
            assert(ms.skip(i as int)[0] == ms[i as int]);
            return Some(i);
        }
        assert(ms.skip(i as int).drop_first() =~= ms.skip(i + 1));
        i = i + 1;
    }
    None
}

/// Member views have one entry per member.
pub proof fn lemma_member_views_len(s: Seq<(String, Json)>)
    ensures
        member_views(s).len() == s.len(),
    decreases s.len(),
{
    if s.len() > 0 {
        lemma_member_views_len(s.subrange(0, s.len() - 1));
    }
}

/// The view of member `i` is the pair of its key's and value's views.
pub proof fn lemma_member_view_at(s: Seq<(String, Json)>, i: int)
    requires
        0 <= i < s.len(),
    ensures
        member_views(s)[i] == (s[i].0@, json_view(s[i].1)),
    decreases s.len(),
{
    lemma_member_views_len(s);
    if i < s.len() - 1 {
        lemma_member_view_at(s.subrange(0, s.len() - 1), i);
    }
}

/// Value views have one entry per value.
pub proof fn lemma_json_views_len(s: Seq<Json>)
    ensures
        json_views(s).len() == s.len(),
    decreases s.len(),
{
    if s.len() > 0 {
        lemma_json_views_len(s.subrange(0, s.len() - 1));
    }
}

/// Lower-case hexadecimal digit.
pub open spec fn hex_digit(d: nat) -> char {
    if d < 10 {
        ((d + 48) as u8) as char
    } else {
        ((d + 87) as u8) as char
    }
}

/// How a char is written inside a JSON string.
pub open spec fn escape_char(c: char) -> Seq<char> {
    if c == '"' {
        "\\\""@
    } else if c == '\\' {
        "\\\\"@
    } else if c == '\n' {
        "\\n"@
    } else if c == '\r' {
        "\\r"@
    } else if c == '\t' {
        "\\t"@
    } else if c == '\u{8}' {
        "\\b"@
    } else if c == '\u{c}' {
        "\\f"@
    } else if (c as u32) < 0x20 {
        "\\u00"@ + seq![hex_digit((c as u32 / 16) as nat), hex_digit((c as u32 % 16) as nat)]
    } else {
        seq![c]
    }
}

/// The chars of a JSON string's body.
pub open spec fn escaped(s: Seq<char>) -> Seq<char>
    decreases s.len(),
{
    if s.len() == 0 {
        seq![]
    } else {
        escaped(s.drop_last()) + escape_char(s.last())
    }
}

/// A JSON string literal.
pub open spec fn quoted(s: Seq<char>) -> Seq<char> {
    "\""@ + escaped(s) + "\""@
}

/// Compact JSON text of a sequence of values, comma-separated.
pub open spec fn items_text(s: Seq<JsonView>) -> Seq<char>
    decreases s, 1int,
{
    if s.len() == 0 {
        seq![]
    } else if s.len() == 1 {
        json_text(s[0])
    } else {
        items_text(s.subrange(0, s.len() - 1)) + ","@ + json_text(s[s.len() - 1])
    }
}

/// Compact JSON text of a sequence of members, comma-separated.
pub open spec fn members_text(s: Seq<(Seq<char>, JsonView)>) -> Seq<char>
    decreases s, 1int,
{
    if s.len() == 0 {
        seq![]
    } else if s.len() == 1 {
        quoted(s[0].0) + ":"@ + json_text(s[0].1)
    } else {
        members_text(s.subrange(0, s.len() - 1)) + ","@ + quoted(s[s.len() - 1].0) + ":"@
            + json_text(s[s.len() - 1].1)
    }
}

/// Compact JSON text of a value, members in their order.
pub open spec fn json_text(j: JsonView) -> Seq<char>
    decreases j, 0int,
{
    match j {
        JsonView::Null => "null"@,
        JsonView::Bool(b) => if b {
            "true"@
        } else {
            "false"@
        },
        JsonView::Int(n) => if n < 0 {
            "-"@ + decimal((-n) as nat)
        } else {
            decimal(n as nat)
        },
        JsonView::UInt(n) => decimal(n as nat),
        JsonView::Str(s) => quoted(s),
        JsonView::Array(items) => "["@ + items_text(items) + "]"@,
        JsonView::Object(ms) => "{"@ + members_text(ms) + "}"@,
    }
}

fn hex_digit_exec(d: u32) -> (c: char)
    requires
        d < 16,
    ensures
        c == hex_digit(d as nat),
{
    if d < 10 {
        ((d + 48) as u8) as char
    } else {
        ((d + 87) as u8) as char
    }
}

/// Appends a JSON string literal holding `s`.
pub fn push_quoted(out: &mut String, s: &str)
    ensures
        final(out)@ == old(out)@ + quoted(s@),
{
    let chars = to_chars(s);
    push_char(out, '"');
    let ghost start = out@;
    let mut i: usize = 0;
    while i < chars.len()
        invariant
            i <= chars@.len(),
            chars@ == s@,
            out@ == start + escaped(chars@.take(i as int)),
        decreases chars@.len() - i,
    {
        assert(chars@.take(i + 1).drop_last() =~= chars@.take(i as int));
        let c = chars[i];
        let ghost before = out@;
        if c == '"' {
            push_str(out, "\\\"");
        } else if c == '\\' {
            push_str(out, "\\\\");
        } else if c == '\n' {
            push_str(out, "\\n");
        } else if c == '\r' {
            push_str(out, "\\r");
        } else if c == '\t' {
            push_str(out, "\\t");
        } else if c == '\u{8}' {
            push_str(out, "\\b");
        } else if c == '\u{c}' {
            push_str(out, "\\f");
        } else if (c as u32) < 0x20 {
            push_str(out, "\\u00");
            push_char(out, hex_digit_exec(c as u32 / 16));
            push_char(out, hex_digit_exec(c as u32 % 16));
            assert(out@ =~= before + escape_char(c));
        } else {
            push_char(out, c);
            assert(out@ =~= before + escape_char(c));
        }
        assert(out@ =~= start + escaped(chars@.take(i + 1)));
        i = i + 1;
    }
    assert(chars@.take(chars@.len() as int) =~= s@);
    push_char(out, '"');
    proof {
        reveal_strlit("\"");
    }
    assert(out@ =~= old(out)@ + quoted(s@));
}

/// Appends the decimal text of an `i64`.
fn push_i64(out: &mut String, n: i64)
    ensures
        final(out)@ == old(out)@ + json_text(JsonView::Int(n)),
{
    if n < 0 {
        push_str(out, "-");
        let m: u64 = if n == i64::MIN {
            9223372036854775808u64
        } else {
            (-n) as u64
        };
        push_decimal_u64(out, m);
    } else {
        push_decimal_u64(out, n as u64);
    }
}

impl Json {
    /// Compact JSON text of this value.
    #[verifier::loop_isolation(false)]
    #[verifier::rlimit(50)]
    #[verifier::spinoff_prover]
    pub fn write_text(&self, out: &mut String)
        ensures
            final(out)@ == old(out)@ + json_text(self@),
        decreases self,
    {
        match self {
            Json::Null => push_str(out, "null"),
            Json::Bool(b) => if *b {
                push_str(out, "true")
            } else {
                push_str(out, "false")
            },
            Json::Int(n) => push_i64(out, *n),
            Json::UInt(n) => push_decimal_u64(out, *n),
            Json::Str(s) => push_quoted(out, s.as_str()),
            Json::Array(v) => {
                proof {
                    lemma_json_views_len(v@);
                }
                push_str(out, "[");
                let ghost start = out@;
                let mut i: usize = 0;
                while i < v.len()
                    invariant
                        i <= v@.len(),
                        json_views(v@).len() == v@.len(),
                        out@ == start + items_text(json_views(v@).take(i as int)),
                    decreases v@.len() - i,
                {
                    proof {
                        assert(decreases_to!(*self => *v));
                        assert(decreases_to!(*v => v@));
                        assert(decreases_to!(v@ => v@[i as int]));
                        lemma_json_view_at(v@, i as int);
                        let t = json_views(v@).take(i + 1);
                        assert(t.subrange(0, t.len() - 1) =~= json_views(v@).take(i as int));
                    }
                    if i > 0 {
                        push_str(out, ",");
                    }
                    v[i].write_text(out);
                    proof {
                        if i == 0 {
                            assert(out@ =~= start + items_text(json_views(v@).take(1)));
                        } else {
                            assert(out@ =~= start + items_text(json_views(v@).take(i + 1)));
                        }
                    }
                    i = i + 1;
                }
                assert(json_views(v@).take(v@.len() as int) =~= json_views(v@));
                push_str(out, "]");
            },
            Json::Object(m) => {
                proof {
                    lemma_member_views_len(m@);
                }
                push_str(out, "{");
                let ghost start = out@;
                let mut i: usize = 0;
                while i < m.len()
                    invariant
                        i <= m@.len(),
                        member_views(m@).len() == m@.len(),
                        out@ == start + members_text(member_views(m@).take(i as int)),
                    decreases m@.len() - i,
                {
                    proof {
                        assert(decreases_to!(*self => *m));
                        assert(decreases_to!(*m => m@));
                        assert(decreases_to!(m@ => m@[i as int]));
                        assert(decreases_to!(m@[i as int] => m@[i as int].1));
                        lemma_member_view_at(m@, i as int);
                        let t = member_views(m@).take(i + 1);
                        assert(t.subrange(0, t.len() - 1) =~= member_views(m@).take(i as int));
                    }
                    if i > 0 {
                        push_str(out, ",");
                    }
                    push_quoted(out, m[i].0.as_str());
                    push_str(out, ":");
                    m[i].1.write_text(out);
                    proof {
                        if i == 0 {
                            assert(out@ =~= start + members_text(member_views(m@).take(1)));
                        } else {
                            assert(out@ =~= start + members_text(member_views(m@).take(i + 1)));
                        }
                    }
                    i = i + 1;
                }
                assert(member_views(m@).take(m@.len() as int) =~= member_views(m@));
                push_str(out, "}");
            },
        }
    }

    /// Compact JSON text of this value.
    pub fn to_text(&self) -> (s: String)
        ensures
            s@ == json_text(self@),
    {
        let mut s = String::new();
        self.write_text(&mut s);
        s
    }
}

/// The view of value `i` of a sequence.
pub proof fn lemma_json_view_at(s: Seq<Json>, i: int)
    requires
        0 <= i < s.len(),
    ensures
        json_views(s)[i] == json_view(s[i]),
    decreases s.len(),
{
    lemma_json_views_len(s);
    if i < s.len() - 1 {
        lemma_json_view_at(s.subrange(0, s.len() - 1), i);
    }
}

/// Index of the first member named `key`, or the number of members.
pub open spec fn entry_index(es: Seq<(Seq<char>, JsonView)>, key: Seq<char>) -> int
    decreases es.len(),
{
    if es.len() == 0 {
        0
    } else if es[0].0 == key {
        0
    } else {
        1 + entry_index(es.drop_first(), key)
    }
}

/// The members after setting `key` to `v`: the first member with that name
/// is replaced in place, otherwise the member is added at the end.
pub open spec fn set_entry(es: Seq<(Seq<char>, JsonView)>, key: Seq<char>, v: JsonView) -> Seq<
    (Seq<char>, JsonView),
> {
    let i = entry_index(es, key);
    if i < es.len() {
        es.update(i, (key, v))
    } else {
        es.push((key, v))
    }
}

proof fn lemma_entry_index_at(es: Seq<(Seq<char>, JsonView)>, key: Seq<char>, i: int)
    requires
        0 <= i <= es.len(),
        i < es.len() ==> es[i].0 == key,
        forall|j: int| 0 <= j < i ==> es[j].0 != key,
    ensures
        entry_index(es, key) == i,
    decreases es.len(),
{
    if es.len() > 0 && i > 0 {
        assert forall|j: int| 0 <= j < i - 1 implies es.drop_first()[j].0 != key by {
            assert(es.drop_first()[j] == es[j + 1]);
        }
        lemma_entry_index_at(es.drop_first(), key, i - 1);
    }
}

/// Position of the first member named `key`, or the number of members.
fn first_member_named(v: &Vec<(String, Json)>, key: &str) -> (i: usize)
    ensures
        i <= v@.len(),
        i < v@.len() ==> v@[i as int].0@ == key@,
        forall|j: int| 0 <= j < i ==> v@[j].0@ != key@,
{
    let mut i: usize = 0;
    while i < v.len()
        invariant
            i <= v@.len(),
            forall|j: int| 0 <= j < i ==> v@[j].0@ != key@,
        decreases v@.len() - i,
    {
        if crate::text::str_eq(v[i].0.as_str(), key) {
            return i;
        }
        i = i + 1;
    }
    i
}

/// Sets member `key` to `value`, replacing the first member with that name.
pub fn set_member(members: &mut Vec<(String, Json)>, key: String, value: Json)
    ensures
        member_views(final(members)@) == set_entry(member_views(old(members)@), key@, value@),
{
    let ghost es = member_views(members@);
    let ghost kv = key@;
    let ghost vv = value@;
    proof {
        lemma_member_views_len(members@);
    }
    let i = first_member_named(members, key.as_str());
    proof {
        assert forall|j: int| 0 <= j < i implies es[j].0 != kv by {
            lemma_member_view_at(members@, j);
        }
        if i < members@.len() {
            lemma_member_view_at(members@, i as int);
        }
        lemma_entry_index_at(es, kv, i as int);
    }
    if i < members.len() {
        let ghost old_m = members@;
        members.set(i, (key, value));
        proof {
            lemma_member_views_len(members@);
            assert forall|j: int| 0 <= j < es.len() implies #[trigger] member_views(members@)[j]
                == es.update(i as int, (kv, vv))[j] by {
                lemma_member_view_at(members@, j);
                lemma_member_view_at(old_m, j);
            }
            assert(member_views(members@) =~= es.update(i as int, (kv, vv)));
        }
    } else {
        let ghost before = members@;
        members.push((key, value));
        assert(members@.subrange(0, members@.len() - 1) =~= before);
    }
}

/// The member `key` among `members`, as `lookup` finds it.
pub fn get_member<'a>(members: &'a Vec<(String, Json)>, key: &str) -> (r: Option<&'a Json>)
    ensures
        match r {
            Some(j) => lookup(member_views(members@), key@) == Some(j@),
            None => lookup(member_views(members@), key@) is None,
        },
{
    match member_index(members, key) {
        Some(i) => Some(&members[i].1),
        None => None,
    }
}

proof fn lemma_entry_index_bounds(es: Seq<(Seq<char>, JsonView)>, key: Seq<char>)
    ensures
        0 <= entry_index(es, key) <= es.len(),
    decreases es.len(),
{
    if es.len() > 0 && es[0].0 != key {
        lemma_entry_index_bounds(es.drop_first(), key);
    }
}

/// Setting a member makes it the one read back, and leaves the others as
/// they were.
pub proof fn lemma_lookup_set_entry(
    es: Seq<(Seq<char>, JsonView)>,
    key: Seq<char>,
    v: JsonView,
    other: Seq<char>,
)
    ensures
        lookup(set_entry(es, key, v), key) == Some(v),
        other != key ==> lookup(set_entry(es, key, v), other) == lookup(es, other),
    decreases es.len(),
{
    if es.len() == 0 {
        assert(set_entry(es, key, v) =~= seq![(key, v)]);
        assert(set_entry(es, key, v).drop_first() =~= Seq::<(Seq<char>, JsonView)>::empty());
        if other != key {
            assert(lookup(set_entry(es, key, v), other) == lookup(
                Seq::<(Seq<char>, JsonView)>::empty(),
                other,
            ));
        }
    } else if es[0].0 == key {
        let t = set_entry(es, key, v);
        assert(t =~= es.update(0, (key, v)));
        assert(t.drop_first() =~= es.drop_first());
        if other != key {
            assert(lookup(t, other) == lookup(t.drop_first(), other));
            assert(lookup(es, other) == lookup(es.drop_first(), other));
        }
    } else {
        let rest = es.drop_first();
        lemma_lookup_set_entry(rest, key, v, other);
        lemma_entry_index_bounds(rest, key);
        let t = set_entry(es, key, v);
        let j = entry_index(rest, key);
        assert(entry_index(es, key) == 1 + j);
        if j < rest.len() {
            assert(t =~= es.update(1 + j, (key, v)));
            assert(t.drop_first() =~= rest.update(j, (key, v)));
        } else {
            assert(t =~= es.push((key, v)));
            assert(t.drop_first() =~= rest.push((key, v)));
        }
        assert(t.drop_first() =~= set_entry(rest, key, v));
        assert(t[0] == es[0]);
        if other != key && es[0].0 != other {
            assert(lookup(t, other) == lookup(t.drop_first(), other));
            assert(lookup(es, other) == lookup(rest, other));
        }
    }
}

} // verus!
