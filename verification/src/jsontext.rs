//! A verified reader and writer for the small JSON subset the sync metadata
//! uses: one object whose members are strings or `null`.
//!
//! Everything works on UTF-8 bytes.  The value grammar covers exactly what
//! the metadata files and the hosted endpoint's bodies contain; parsing is
//! proved equal to a recursive specification, and rendering is proved to
//! parse back to what was written.

use vstd::prelude::*;

verus! {

/// `"`
pub open spec fn q_mark() -> u8 {
    0x22
}

/// `\`
pub open spec fn bslash() -> u8 {
    0x5c
}

pub open spec fn is_ws(b: u8) -> bool {
    b == 0x20 || b == 0x09 || b == 0x0a || b == 0x0d
}

/// First index at or after `i` holding a non-whitespace byte (or the end).
pub open spec fn skip_ws(s: Seq<u8>, i: int) -> int
    decreases s.len() - i,
{
    if i < s.len() && 0 <= i && is_ws(s[i]) {
        skip_ws(s, i + 1)
    } else {
        i
    }
}

pub proof fn lemma_skip_ws_bounds(s: Seq<u8>, i: int)
    requires
        0 <= i <= s.len(),
    ensures
        i <= skip_ws(s, i) <= s.len(),
    decreases s.len() - i,
{
    if i < s.len() && is_ws(s[i]) {
        lemma_skip_ws_bounds(s, i + 1);
    }
}

/// What one escape character stands for.
pub open spec fn unescape_byte(b: u8) -> Option<u8> {
    if b == 0x22 {
        Some(0x22u8)
    } else if b == 0x5c {
        Some(0x5cu8)
    } else if b == 0x2f {
        Some(0x2fu8)
    } else if b == 0x6e {
        Some(0x0au8)
    } else if b == 0x74 {
        Some(0x09u8)
    } else if b == 0x72 {
        Some(0x0du8)
    } else if b == 0x62 {
        Some(0x08u8)
    } else if b == 0x66 {
        Some(0x0cu8)
    } else {
        None
    }
}

/// Scan a string body beginning at `i` (just after the opening quote):
/// the unescaped bytes and the index just after the closing quote.
pub open spec fn scan_string(s: Seq<u8>, i: int) -> Option<(Seq<u8>, int)>
    decreases s.len() - i,
{
    if i < 0 || i >= s.len() {
        None
    } else if s[i] == q_mark() {
        Some((Seq::empty(), i + 1))
    } else if s[i] == bslash() {
        if i + 1 < s.len() {
            match unescape_byte(s[i + 1]) {
                Some(c) => match scan_string(s, i + 2) {
                    Some((rest, j)) => Some((seq![c] + rest, j)),
                    None => None,
                },
                None => None,
            }
        } else {
            None
        }
    } else {
        match scan_string(s, i + 1) {
            Some((rest, j)) => Some((seq![s[i]] + rest, j)),
            None => None,
        }
    }
}

pub proof fn lemma_scan_string_bounds(s: Seq<u8>, i: int)
    ensures
        scan_string(s, i) matches Some(p) ==> i < p.1 <= s.len(),
    decreases s.len() - i,
{
    if 0 <= i && i < s.len() {
        if s[i] == q_mark() {
        } else if s[i] == bslash() {
            if i + 1 < s.len() {
                lemma_scan_string_bounds(s, i + 2);
            }
        } else {
            lemma_scan_string_bounds(s, i + 1);
        }
    }
}

fn byte_is_ws(s: &Vec<u8>, i: usize) -> (r: bool)
    requires
        i < s@.len(),
    ensures
        r == is_ws(s@[i as int]),
{
    let b = s[i];
    b == 0x20 || b == 0x09 || b == 0x0a || b == 0x0d
}

pub fn skip_ws_exec(s: &Vec<u8>, i: usize) -> (r: usize)
    requires
        i <= s@.len(),
    ensures
        r as int == skip_ws(s@, i as int),
        i <= r <= s@.len(),
{
    let mut cur = i;
    while cur < s.len() && byte_is_ws(s, cur)
        invariant
            i <= cur <= s@.len(),
            skip_ws(s@, i as int) == skip_ws(s@, cur as int),
        decreases s@.len() - cur,
    {
        cur += 1;
    }
    cur
}

fn unescape_exec(b: u8) -> (r: Option<u8>)
    ensures
        r == unescape_byte(b),
{
    if b == 0x22 {
        Some(0x22)
    } else if b == 0x5c {
        Some(0x5c)
    } else if b == 0x2f {
        Some(0x2f)
    } else if b == 0x6e {
        Some(0x0a)
    } else if b == 0x74 {
        Some(0x09)
    } else if b == 0x72 {
        Some(0x0d)
    } else if b == 0x62 {
        Some(0x08)
    } else if b == 0x66 {
        Some(0x0c)
    } else {
        None
    }
}

pub fn scan_string_exec(s: &Vec<u8>, start: usize) -> (r: Option<(Vec<u8>, usize)>)
    requires
        start <= s@.len(),
    ensures
        r is Some <==> scan_string(s@, start as int) is Some,
        r matches Some(p) ==> scan_string(s@, start as int) == Some((p.0@, p.1 as int)) && start
            < p.1 <= s@.len(),
{
    proof {
        lemma_scan_string_bounds(s@, start as int);
    }
    let mut acc: Vec<u8> = Vec::new();
    let mut i = start;
    loop
        invariant
            start <= i <= s@.len(),
            scan_string(s@, start as int) == (match scan_string(s@, i as int) {
                Some((rest, j)) => Some((acc@ + rest, j)),
                None => None::<(Seq<u8>, int)>,
            }),
        decreases s@.len() - i,
    {
        if i >= s.len() {
            return None;
        }
        let b = s[i];
        if b == 0x22 {
            assert(acc@ + Seq::<u8>::empty() =~= acc@);
            return Some((acc, i + 1));
        }
        if b == 0x5c {
            if i + 1 >= s.len() {
                return None;
            }
            match unescape_exec(s[i + 1]) {
                None => {
                    return None;
                },
                Some(c) => {
                    let ghost old_acc = acc@;
                    acc.push(c);
                    proof {
                        if scan_string(s@, (i + 2) as int) is Some {
                            let p = scan_string(s@, (i + 2) as int)->0;
                            let rest = p.0;
                            assert(old_acc + (seq![c] + rest) =~= acc@ + rest);
                        }
                    }
                    i += 2;
                },
            }
        } else {
            let ghost old_acc = acc@;
            acc.push(b);
            proof {
                if scan_string(s@, (i + 1) as int) is Some {
                    let p = scan_string(s@, (i + 1) as int)->0;
                    let rest = p.0;
                    assert(old_acc + (seq![b] + rest) =~= acc@ + rest);
                }
            }
            i += 1;
        }
    }
}

/// The bytes `null`.
pub open spec fn null_lit() -> Seq<u8> {
    seq![0x6eu8, 0x75u8, 0x6cu8, 0x6cu8]
}

/// One member at `i`: `"key" : "value"` or `"key" : null`, surrounding
/// whitespace allowed.  Yields the unescaped key and value and the index
/// just past the value.
pub open spec fn parse_member(s: Seq<u8>, i: int) -> Option<((Seq<u8>, Option<Seq<u8>>), int)> {
    let i1 = skip_ws(s, i);
    if i1 < s.len() && s[i1] == q_mark() {
        match scan_string(s, i1 + 1) {
            Some((key, i2)) => {
                let i3 = skip_ws(s, i2);
                if i3 < s.len() && s[i3] == 0x3a {
                    let i4 = skip_ws(s, i3 + 1);
                    if i4 < s.len() && s[i4] == q_mark() {
                        match scan_string(s, i4 + 1) {
                            Some((v, i5)) => Some(((key, Some(v)), i5)),
                            None => None,
                        }
                    } else if i4 + 4 <= s.len() && s.subrange(i4, i4 + 4) == null_lit() {
                        Some(((key, None), i4 + 4))
                    } else {
                        None
                    }
                } else {
                    None
                }
            },
            None => None,
        }
    } else {
        None
    }
}

pub proof fn lemma_parse_member_bounds(s: Seq<u8>, i: int)
    requires
        0 <= i,
    ensures
        parse_member(s, i) matches Some(p) ==> i < p.1 <= s.len(),
{
    let i1 = skip_ws(s, i);
    if parse_member(s, i) is Some {
        assert(i1 < s.len());
        if i <= s.len() {
            lemma_skip_ws_bounds(s, i);
        }
        lemma_scan_string_bounds(s, i1 + 1);
        let p0 = scan_string(s, i1 + 1)->0;
        let i2 = p0.1;
        lemma_skip_ws_bounds(s, i2);
        let i3 = skip_ws(s, i2);
        assert(i3 < s.len());
        lemma_skip_ws_bounds(s, i3 + 1);
        let i4 = skip_ws(s, i3 + 1);
        if i4 < s.len() && s[i4] == q_mark() {
            lemma_scan_string_bounds(s, i4 + 1);
        }
    }
}

/// The members from `i` up to the closing brace, and the index past it.
pub open spec fn parse_members(s: Seq<u8>, i: int) -> Option<
    (Seq<(Seq<u8>, Option<Seq<u8>>)>, int),
>
    decreases s.len() - i,
    when 0 <= i <= s.len()
    via parse_members_dec
{
    match parse_member(s, i) {
        Some((m, j)) => {
            let j1 = skip_ws(s, j);
            if j1 < s.len() && s[j1] == 0x2c {
                match parse_members(s, j1 + 1) {
                    Some((rest, k)) => Some((seq![m] + rest, k)),
                    None => None,
                }
            } else if j1 < s.len() && s[j1] == 0x7d {
                Some((seq![m], j1 + 1))
            } else {
                None
            }
        },
        None => None,
    }
}

#[via_fn]
proof fn parse_members_dec(s: Seq<u8>, i: int) {
    lemma_parse_member_bounds(s, i);
    if parse_member(s, i) is Some {
        let p = parse_member(s, i)->0;
        lemma_skip_ws_bounds(s, p.1);
    }
}

pub proof fn lemma_parse_members_bounds(s: Seq<u8>, i: int)
    requires
        0 <= i <= s.len(),
    ensures
        parse_members(s, i) matches Some(p) ==> i < p.1 <= s.len(),
    decreases s.len() - i,
{
    lemma_parse_member_bounds(s, i);
    if parse_members(s, i) is Some && parse_member(s, i) is Some {
        let p = parse_member(s, i)->0;
        let j = p.1;
        lemma_skip_ws_bounds(s, j);
        let j1 = skip_ws(s, j);
        if j1 < s.len() && s[j1] == 0x2c {
            lemma_parse_members_bounds(s, j1 + 1);
        }
    }
}

/// A whole document: one object, arbitrary surrounding whitespace, nothing
/// after it.
pub open spec fn parse_object(s: Seq<u8>) -> Option<Seq<(Seq<u8>, Option<Seq<u8>>)>> {
    let i = skip_ws(s, 0);
    if i < s.len() && s[i] == 0x7b {
        let i1 = skip_ws(s, i + 1);
        if i1 < s.len() && s[i1] == 0x7d {
            if skip_ws(s, i1 + 1) == s.len() {
                Some(Seq::empty())
            } else {
                None
            }
        } else {
            match parse_members(s, i + 1) {
                Some((ms, j)) => {
                    if skip_ws(s, j) == s.len() {
                        Some(ms)
                    } else {
                        None
                    }
                },
                None => None,
            }
        }
    } else {
        None
    }
}

/// One member as the executable parser returns it.
pub struct JsonMember {
    pub key: Vec<u8>,
    pub value: Option<Vec<u8>>,
}

impl JsonMember {
    pub open spec fn view_pair(&self) -> (Seq<u8>, Option<Seq<u8>>) {
        (
            self.key@,
            match self.value {
                Some(v) => Some(v@),
                None => None,
            },
        )
    }
}

pub open spec fn members_view(v: Seq<JsonMember>) -> Seq<(Seq<u8>, Option<Seq<u8>>)> {
    Seq::new(v.len(), |i: int| v[i].view_pair())
}

fn parse_member_exec(s: &Vec<u8>, i: usize) -> (r: Option<(JsonMember, usize)>)
    requires
        i <= s@.len(),
    ensures
        r is Some <==> parse_member(s@, i as int) is Some,
        r matches Some(p) ==> parse_member(s@, i as int) == Some((p.0.view_pair(), p.1 as int))
            && i < p.1 <= s@.len(),
{
    proof {
        lemma_parse_member_bounds(s@, i as int);
    }
    let i1 = skip_ws_exec(s, i);
    if !(i1 < s.len() && s[i1] == 0x22) {
        return None;
    }
    match scan_string_exec(s, i1 + 1) {
        None => None,
        Some((key, i2)) => {
            let i3 = skip_ws_exec(s, i2);
            if !(i3 < s.len() && s[i3] == 0x3a) {
                return None;
            }
            let i4 = skip_ws_exec(s, i3 + 1);
            if i4 < s.len() && s[i4] == 0x22 {
                match scan_string_exec(s, i4 + 1) {
                    None => None,
                    Some((v, i5)) => Some((JsonMember { key, value: Some(v) }, i5)),
                }
            } else if s.len() >= 4 && i4 <= s.len() - 4 && s[i4] == 0x6e && s[i4 + 1] == 0x75
                && s[i4 + 2] == 0x6c && s[i4 + 3] == 0x6c {
                assert(s@.subrange(i4 as int, i4 + 4) =~= null_lit());
                Some((JsonMember { key, value: None }, i4 + 4))
            } else {
                assert(!(i4 + 4 <= s@.len() && s@.subrange(i4 as int, i4 + 4) == null_lit())) by {
                    if i4 + 4 <= s@.len() && s@.subrange(i4 as int, i4 + 4) == null_lit() {
                        assert(s@.subrange(i4 as int, i4 + 4)[0] == s@[i4 as int]);
                        assert(s@.subrange(i4 as int, i4 + 4)[1] == s@[i4 as int + 1]);
                        assert(s@.subrange(i4 as int, i4 + 4)[2] == s@[i4 as int + 2]);
                        assert(s@.subrange(i4 as int, i4 + 4)[3] == s@[i4 as int + 3]);
                    }
                }
                None
            }
        },
    }
}

fn parse_members_exec(s: &Vec<u8>, start: usize) -> (r: Option<(Vec<JsonMember>, usize)>)
    requires
        start <= s@.len(),
    ensures
        r is Some <==> parse_members(s@, start as int) is Some,
        r matches Some(p) ==> parse_members(s@, start as int) == Some(
            (members_view(p.0@), p.1 as int),
        ) && p.1 <= s@.len(),
{
    let mut acc: Vec<JsonMember> = Vec::new();
    let mut cur = start;
    assert(members_view(acc@) =~= Seq::<(Seq<u8>, Option<Seq<u8>>)>::empty());
    loop
        invariant
            start <= cur <= s@.len(),
            parse_members(s@, start as int) == (match parse_members(s@, cur as int) {
                Some((rest, k)) => Some((members_view(acc@) + rest, k)),
                None => None::<(Seq<(Seq<u8>, Option<Seq<u8>>)>, int)>,
            }),
        decreases s@.len() - cur,
    {
        match parse_member_exec(s, cur) {
            None => {
                return None;
            },
            Some((m, j)) => {
                let j1 = skip_ws_exec(s, j);
                let ghost prev_acc = acc@;
                if j1 < s.len() && s[j1] == 0x2c {
                    acc.push(m);
                    proof {
                        assert(acc@.drop_last() =~= prev_acc);
                        if parse_members(s@, (j1 + 1) as int) is Some {
                            let p = parse_members(s@, (j1 + 1) as int)->0;
                            let rest = p.0;
                            assert(parse_members(s@, cur as int) == Some::<
                                (Seq<(Seq<u8>, Option<Seq<u8>>)>, int),
                            >((seq![m.view_pair()] + rest, p.1)));
                            assert(members_view(prev_acc) + (seq![m.view_pair()] + rest)
                                =~= members_view(acc@) + rest);
                        } else {
                            assert(parse_members(s@, cur as int) is None);
                        }
                    }
                    cur = j1 + 1;
                } else if j1 < s.len() && s[j1] == 0x7d {
                    acc.push(m);
                    proof {
                        assert(acc@.drop_last() =~= prev_acc);
                        assert(parse_members(s@, cur as int) == Some::<
                            (Seq<(Seq<u8>, Option<Seq<u8>>)>, int),
                        >((seq![m.view_pair()], (j1 + 1) as int)));
                        assert(members_view(prev_acc) + seq![m.view_pair()] =~= members_view(
                            acc@,
                        ));
                    }
                    return Some((acc, j1 + 1));
                } else {
                    return None;
                }
            },
        }
    }
}

/// Parse a whole document.
pub fn parse_object_exec(s: &Vec<u8>) -> (r: Option<Vec<JsonMember>>)
    ensures
        r is Some <==> parse_object(s@) is Some,
        r matches Some(ms) ==> parse_object(s@) == Some(members_view(ms@)),
{
    let i = skip_ws_exec(s, 0);
    if !(i < s.len() && s[i] == 0x7b) {
        return None;
    }
    let i1 = skip_ws_exec(s, i + 1);
    if i1 < s.len() && s[i1] == 0x7d {
        let j = skip_ws_exec(s, i1 + 1);
        if j == s.len() {
            assert(members_view(Seq::<JsonMember>::empty()) =~= Seq::<
                (Seq<u8>, Option<Seq<u8>>),
            >::empty());
            Some(Vec::new())
        } else {
            None
        }
    } else {
        match parse_members_exec(s, i + 1) {
            None => None,
            Some((ms, j)) => {
                let k = skip_ws_exec(s, j);
                if k == s.len() {
                    Some(ms)
                } else {
                    None
                }
            },
        }
    }
}

/// First member with this key, if any.
pub open spec fn member_lookup(ms: Seq<(Seq<u8>, Option<Seq<u8>>)>, key: Seq<u8>) -> Option<
    Option<Seq<u8>>,
>
    decreases ms.len(),
{
    if ms.len() == 0 {
        None
    } else if ms[0].0 == key {
        Some(ms[0].1)
    } else {
        member_lookup(ms.drop_first(), key)
    }
}

fn bytes_eq(a: &Vec<u8>, b: &[u8]) -> (r: bool)
    ensures
        r == (a@ == b@),
{
    if a.len() != b.len() {
        return false;
    }
    let mut i: usize = 0;
    while i < a.len()
        invariant
            i <= a@.len(),
            a@.len() == b@.len(),
            forall|j: int| 0 <= j < i ==> a@[j] == b@[j],
        decreases a@.len() - i,
    {
        if a[i] != b[i] {
            return false;
        }
        i += 1;
    }
    assert(a@ =~= b@);
    true
}

/// First member of `ms` whose key is `key`.
pub fn lookup_member<'a>(ms: &'a Vec<JsonMember>, key: &[u8]) -> (r: Option<&'a JsonMember>)
    ensures
        r is Some <==> member_lookup(members_view(ms@), key@) is Some,
        r matches Some(m) ==> member_lookup(members_view(ms@), key@) == Some(m.view_pair().1),
{
    let mut i: usize = 0;
    assert(members_view(ms@).skip(0) =~= members_view(ms@));
    while i < ms.len()
        invariant
            i <= ms@.len(),
            forall|j: int| 0 <= j < i ==> (#[trigger] ms@[j].key)@ != key@,
            member_lookup(members_view(ms@), key@) == member_lookup(
                members_view(ms@).skip(i as int),
                key@,
            ),
        decreases ms@.len() - i,
    {
        if bytes_eq(&ms[i].key, key) {
            proof {
                assert(members_view(ms@).skip(i as int)[0] == ms@[i as int].view_pair());
            }
            return Some(&ms[i]);
        }
        proof {
            assert(members_view(ms@).skip(i as int)[0] == ms@[i as int].view_pair());
            assert(members_view(ms@).skip(i as int).drop_first() =~= members_view(ms@).skip(
                i + 1,
            ));
        }
        i += 1;
    }
    proof {
        assert(members_view(ms@).skip(ms@.len() as int) =~= Seq::<
            (Seq<u8>, Option<Seq<u8>>),
        >::empty());
    }
    None
}

/// The bytes of an ASCII string, one byte per character.
pub open spec fn ascii_bytes(s: Seq<char>) -> Seq<u8> {
    Seq::new(s.len(), |i: int| s[i] as u8)
}

/// The UTF-8 bytes of an ASCII string slice.
pub fn str_ascii_bytes<'a>(s: &'a str) -> (r: &'a [u8])
    requires
        vstd::string::is_ascii(s),
    ensures
        r@ =~= ascii_bytes(s@),
{
    broadcast use vstd::string::is_ascii_spec_bytes;

    s.as_bytes()
}

/// How one byte is written inside a JSON string.
pub open spec fn escape_one(c: u8) -> Seq<u8> {
    if c == q_mark() || c == bslash() {
        seq![bslash(), c]
    } else {
        seq![c]
    }
}

/// How a byte string is written inside a JSON string.
pub open spec fn escape_bytes(b: Seq<u8>) -> Seq<u8>
    decreases b.len(),
{
    if b.len() == 0 {
        Seq::empty()
    } else {
        escape_one(b[0]) + escape_bytes(b.drop_first())
    }
}

/// A quoted JSON string.
pub open spec fn quoted(b: Seq<u8>) -> Seq<u8> {
    seq![q_mark()] + escape_bytes(b) + seq![q_mark()]
}

proof fn lemma_escape_snoc(b: Seq<u8>, c: u8)
    ensures
        escape_bytes(b.push(c)) =~= escape_bytes(b) + escape_one(c),
    decreases b.len(),
{
    assert(b.push(c).len() == b.len() + 1);
    assert(escape_bytes(b.push(c)) == escape_one(b.push(c)[0]) + escape_bytes(
        b.push(c).drop_first(),
    ));
    if b.len() == 0 {
        assert(b.push(c)[0] == c);
        assert(b.push(c).drop_first() =~= Seq::<u8>::empty());
        assert(escape_bytes(Seq::<u8>::empty()) == Seq::<u8>::empty());
        assert(escape_bytes(b) == Seq::<u8>::empty());
        assert(escape_one(c) + Seq::<u8>::empty() =~= escape_one(c));
        assert(Seq::<u8>::empty() + escape_one(c) =~= escape_one(c));
        assert(escape_bytes(b.push(c)) =~= escape_bytes(b) + escape_one(c));
    } else {
        assert(b.push(c)[0] == b[0]);
        assert(b.push(c).drop_first() =~= b.drop_first().push(c));
        lemma_escape_snoc(b.drop_first(), c);
        assert(escape_bytes(b) == escape_one(b[0]) + escape_bytes(b.drop_first()));
        assert(escape_one(b[0]) + (escape_bytes(b.drop_first()) + escape_one(c)) =~= (escape_one(
            b[0],
        ) + escape_bytes(b.drop_first())) + escape_one(c));
        assert(escape_bytes(b.push(c)) =~= escape_bytes(b) + escape_one(c));
    }
}

/// Append `"<escaped b>"` to `out`.
pub fn push_quoted(out: &mut Vec<u8>, b: &[u8])
    ensures
        final(out)@ =~= old(out)@ + quoted(b@),
{
    out.push(0x22);
    let mut i: usize = 0;
    while i < b.len()
        invariant
            i <= b@.len(),
            out@ =~= old(out)@ + seq![q_mark()] + escape_bytes(b@.take(i as int)),
        decreases b@.len() - i,
    {
        let c = b[i];
        if c == 0x22 || c == 0x5c {
            out.push(0x5c);
            out.push(c);
        } else {
            out.push(c);
        }
        proof {
            assert(b@.take(i + 1) =~= b@.take(i as int).push(b@[i as int]));
            lemma_escape_snoc(b@.take(i as int), b@[i as int]);
        }
        i += 1;
    }
    proof {
        assert(b@.take(b@.len() as int) =~= b@);
    }
    out.push(0x22);
}

/// A window of `s` equal to `e` carries each aligned part of `e` over.
proof fn lemma_subrange_transfer(s: Seq<u8>, i: int, e: Seq<u8>, off: int, part: Seq<u8>)
    requires
        0 <= i,
        i + e.len() <= s.len(),
        s.subrange(i, i + e.len() as int) == e,
        0 <= off,
        off + part.len() <= e.len(),
        forall|x: int| 0 <= x < part.len() ==> e[off + x] == part[x],
    ensures
        s.subrange(i + off, i + off + part.len() as int) == part,
{
    assert forall|x: int| 0 <= x < part.len() implies s.subrange(
        i + off,
        i + off + part.len() as int,
    )[x] == part[x] by {
        assert(s.subrange(i, i + e.len() as int)[off + x] == s[i + off + x]);
    }
    assert(s.subrange(i + off, i + off + part.len() as int) =~= part);
}

/// Scanning a rendered string recovers exactly what was escaped.
pub proof fn lemma_scan_quoted(s: Seq<u8>, i: int, b: Seq<u8>)
    requires
        0 <= i,
        i + escape_bytes(b).len() + 1 <= s.len(),
        s.subrange(i, i + escape_bytes(b).len() as int) == escape_bytes(b),
        s[i + escape_bytes(b).len()] == q_mark(),
    ensures
        scan_string(s, i) == Some((b, i + escape_bytes(b).len() + 1)),
    decreases b.len(),
{
    if b.len() == 0 {
        assert(s[i] == q_mark());
    } else {
        let c = b[0];
        let rest = b.drop_first();
        let e = escape_bytes(b);
        assert(e == escape_one(c) + escape_bytes(rest));
        if c == q_mark() || c == bslash() {
            assert(e[0] == bslash() && e[1] == c);
            assert(s[i] == e[0]);
            assert(s[i + 1] == e[1]);
            assert(unescape_byte(c) == Some(c));
            lemma_subrange_transfer(s, i, e, 2, escape_bytes(rest));
            lemma_scan_quoted(s, i + 2, rest);
            assert(seq![c] + rest =~= b);
        } else {
            assert(e[0] == c);
            assert(s[i] == c);
            lemma_subrange_transfer(s, i, e, 1, escape_bytes(rest));
            lemma_scan_quoted(s, i + 1, rest);
            assert(seq![s[i]] + rest =~= b);
        }
    }
}

/// A rendered member, `"key":"value"` with no whitespace.
pub open spec fn member_bytes(k: Seq<u8>, v: Seq<u8>) -> Seq<u8> {
    quoted(k) + seq![0x3au8] + quoted(v)
}

pub proof fn lemma_parse_member_rendered(s: Seq<u8>, i: int, k: Seq<u8>, v: Seq<u8>)
    requires
        0 <= i,
        i + member_bytes(k, v).len() <= s.len(),
        s.subrange(i, i + member_bytes(k, v).len() as int) == member_bytes(k, v),
    ensures
        parse_member(s, i) == Some(((k, Some(v)), i + member_bytes(k, v).len())),
{
    let ek = escape_bytes(k);
    let ev = escape_bytes(v);
    let mb = member_bytes(k, v);
    assert(mb[0] == q_mark());
    assert(s[i] == q_mark());
    assert(skip_ws(s, i) == i);
    lemma_subrange_transfer(s, i, mb, 1, ek);
    assert(mb[1 + ek.len() as int] == q_mark());
    assert(s[i + 1 + ek.len()] == q_mark());
    lemma_scan_quoted(s, i + 1, k);
    let i2: int = i + 1 + ek.len() as int + 1;
    assert(mb[1 + ek.len() as int + 1] == 0x3a);
    assert(s[i2] == 0x3a);
    assert(skip_ws(s, i2) == i2);
    assert(mb[1 + ek.len() as int + 2] == q_mark());
    assert(s[i2 + 1] == q_mark());
    assert(skip_ws(s, i2 + 1) == i2 + 1);
    assert forall|x: int| 0 <= x < ev.len() implies mb[(1 + ek.len() + 2 + 1) + x] == ev[x] by {
        assert(quoted(v)[1 + x] == ev[x]);
    }
    lemma_subrange_transfer(s, i, mb, 1 + ek.len() as int + 2 + 1, ev);
    assert(mb[mb.len() - 1] == q_mark());
    assert(s[i2 + 2 + ev.len()] == q_mark());
    lemma_scan_quoted(s, i2 + 2, v);
    assert(i2 + 2 + ev.len() + 1 == i + mb.len());
}

/// A rendered two-member object, no whitespace.
pub open spec fn object_two(k1: Seq<u8>, v1: Seq<u8>, k2: Seq<u8>, v2: Seq<u8>) -> Seq<u8> {
    seq![0x7bu8] + member_bytes(k1, v1) + seq![0x2cu8] + member_bytes(k2, v2) + seq![0x7du8]
}

/// Parsing a rendered two-member object yields exactly those members.
#[verifier::rlimit(60)]
pub proof fn lemma_parse_object_two(k1: Seq<u8>, v1: Seq<u8>, k2: Seq<u8>, v2: Seq<u8>)
    ensures
        parse_object(object_two(k1, v1, k2, v2)) == Some(
            seq![(k1, Some(v1)), (k2, Some(v2))],
        ),
{
    let s = object_two(k1, v1, k2, v2);
    let m1 = member_bytes(k1, v1);
    let m2 = member_bytes(k2, v2);
    assert(s.len() == 1 + m1.len() + 1 + m2.len() + 1);
    assert(s[0] == 0x7b);
    assert(skip_ws(s, 0) == 0);
    assert(s.subrange(1, 1 + m1.len() as int) =~= m1);
    lemma_parse_member_rendered(s, 1, k1, v1);
    let j: int = 1 + m1.len() as int;
    assert(s[j] == 0x2c);
    assert(skip_ws(s, j) == j);
    assert(s.subrange(j + 1, j + 1 + m2.len() as int) =~= m2);
    lemma_parse_member_rendered(s, j + 1, k2, v2);
    let j2: int = j + 1 + m2.len() as int;
    assert(s[j2] == 0x7d);
    assert(skip_ws(s, j2) == j2);
    assert(parse_members(s, j + 1) == Some((seq![(k2, Some(v2))], j2 + 1)));
    assert(parse_members(s, 1) == Some(
        (seq![(k1, Some(v1))] + seq![(k2, Some(v2))], j2 + 1),
    ));
    assert(s[1] == q_mark());
    assert(skip_ws(s, 1) == 1);
    assert(j2 + 1 == s.len());
    assert(skip_ws(s, s.len() as int) == s.len());
    assert(seq![(k1, Some(v1))] + seq![(k2, Some(v2))] =~= seq![
        (k1, Some(v1)),
        (k2, Some(v2)),
    ]);
}

} // verus!
