//! The JSON that a connection string wraps: an object of texts.
//!
//! `serde_json` writes and reads each string and says whether a text is JSON at
//! all; how an object is put together from its members, and how it falls apart
//! into them again, is stated here.

use serde::de::IgnoredAny;
use vstd::prelude::*;

verus! {

/// `serde_json::Error`: why a text is not the JSON that was asked for.
#[verifier::external_type_specification]
#[verifier::external_body]
pub struct ExJsonError(serde_json::Error);

/// The bytes `"`, `\`, `,`, `:` and the brackets, by their codes.
pub const QUOTE: u8 = 34;

pub const BACKSLASH: u8 = 92;

pub const COMMA: u8 = 44;

pub const COLON: u8 = 58;

pub const OPEN_BRACE: u8 = 123;

pub const CLOSE_BRACE: u8 = 125;

pub const OPEN_BRACKET: u8 = 91;

pub const CLOSE_BRACKET: u8 = 93;

/// The JSON string that `serde_json` writes for a text.
pub uninterp spec fn json_string(text: Seq<char>) -> Seq<u8>;

/// The text that `serde_json` reads in bytes that hold one JSON string.
pub uninterp spec fn json_string_value(bytes: Seq<u8>) -> Option<Seq<char>>;

/// Whether `serde_json` takes some bytes for one JSON value.
pub uninterp spec fn is_json(bytes: Seq<u8>) -> bool;

/// Whether the rest of a JSON string ends with the quote that closes it.
pub open spec fn closes_string(rest: Seq<u8>) -> bool
    decreases rest.len(),
{
    if rest.len() == 0 {
        false
    } else if rest[0] == QUOTE {
        rest.len() == 1
    } else if rest[0] == BACKSLASH {
        rest.len() >= 2 && closes_string(rest.skip(2))
    } else {
        closes_string(rest.skip(1))
    }
}

/// Whether some bytes are a quote, characters of which each inner quote is
/// escaped, and a quote.
pub open spec fn quoted(bytes: Seq<u8>) -> bool {
    bytes.len() >= 2 && bytes[0] == QUOTE && closes_string(bytes.skip(1))
}

/// `serde_json::to_vec` of a text, which succeeds: a quoted string in which each
/// inner quote is escaped, and which no other text has.
#[verifier::external_body]
pub(crate) fn write_string(text: &str) -> (r: Result<Vec<u8>, serde_json::Error>)
    ensures
        r is Ok,
        r matches Ok(b) ==> b@ == json_string(text@) && quoted(b@),
        r matches Ok(b) ==> forall|t: Seq<char>| #[trigger] json_string(t) == b@ ==> t == text@,
{
    serde_json::to_vec(text)
}

/// `serde_json::from_slice` into a `String`. The JSON string that `serde_json`
/// wrote for a text is read back as that text.
#[verifier::external_body]
pub(crate) fn read_string(bytes: &[u8]) -> (r: Result<String, serde_json::Error>)
    ensures
        r is Ok <==> json_string_value(bytes@) is Some,
        r matches Ok(t) ==> json_string_value(bytes@) == Some(t@),
        r is Err ==> forall|t: Seq<char>| #[trigger] json_string(t) != bytes@,
        r matches Ok(s) ==> forall|t: Seq<char>| #[trigger] json_string(t) == bytes@ ==> s@ == t,
{
    serde_json::from_slice(bytes)
}

/// `serde_json::from_slice` into `serde::de::IgnoredAny`: whether the bytes hold
/// one JSON value. An object of members that `serde_json` wrote is one.
#[verifier::external_body]
pub(crate) fn check_json(bytes: &[u8]) -> (r: Result<(), serde_json::Error>)
    ensures
        r is Ok <==> is_json(bytes@),
        r is Err ==> forall|fields: Seq<(Seq<char>, Seq<char>)>|
            #[trigger] json_object(fields) != bytes@,
{
    serde_json::from_slice::<IgnoredAny>(bytes)?;
    Ok(())
}

/// A member of an object: its name and its text.
pub open spec fn member(field: (Seq<char>, Seq<char>)) -> Seq<u8> {
    json_string(field.0) + seq![COLON] + json_string(field.1)
}

/// The members of an object with commas between them.
pub open spec fn members(fields: Seq<(Seq<char>, Seq<char>)>) -> Seq<u8>
    decreases fields.len(),
{
    if fields.len() == 0 {
        Seq::empty()
    } else if fields.len() == 1 {
        member(fields[0])
    } else {
        members(fields.drop_last()) + seq![COMMA] + member(fields.last())
    }
}

/// The JSON object of some named texts, in their order.
pub open spec fn json_object(fields: Seq<(Seq<char>, Seq<char>)>) -> Seq<u8> {
    seq![OPEN_BRACE] + members(fields) + seq![CLOSE_BRACE]
}

/// Whether each name and each text of some members has a quoted JSON string.
pub open spec fn all_quoted(fields: Seq<(Seq<char>, Seq<char>)>) -> bool {
    forall|i: int|
        0 <= i < fields.len() ==> quoted(json_string((#[trigger] fields[i]).0)) && quoted(
            json_string(fields[i].1),
        )
}

/// Whether the JSON string of each name and each text of some members is that of
/// no other text.
pub open spec fn told_apart(fields: Seq<(Seq<char>, Seq<char>)>) -> bool {
    forall|i: int, t: Seq<char>|
        #![trigger fields[i], json_string(t)]
        0 <= i < fields.len() ==> {
            &&& json_string(t) == json_string(fields[i].0) ==> t == fields[i].0
            &&& json_string(t) == json_string(fields[i].1) ==> t == fields[i].1
        }
}

/// Named texts as pairs of character sequences.
pub open spec fn field_views(fields: Seq<(String, String)>) -> Seq<(Seq<char>, Seq<char>)> {
    fields.map_values(|f: (String, String)| (f.0@, f.1@))
}

/// Writes the JSON object of some named texts.
pub fn write_object(fields: &Vec<(String, String)>) -> (r: Result<Vec<u8>, serde_json::Error>)
    ensures
        r is Ok,
        r matches Ok(b) ==> b@ == json_object(field_views(fields@)),
        r is Ok ==> all_quoted(field_views(fields@)) && told_apart(field_views(fields@)),
{
    let mut out: Vec<u8> = Vec::new();
    out.push(OPEN_BRACE);
    let ghost all = field_views(fields@);
    assert(out@ =~= seq![OPEN_BRACE] + members(all.take(0)));
    let mut i: usize = 0;
    while i < fields.len()
        invariant
            i <= fields@.len(),
            all == field_views(fields@),
            out@ == seq![OPEN_BRACE] + members(all.take(i as int)),
            all_quoted(all.take(i as int)),
            told_apart(all.take(i as int)),
        decreases fields@.len() - i,
    {
        let ghost before = out@;
        let ghost next = all.take(i + 1);
        assert(next.drop_last() =~= all.take(i as int));
        assert(next.last() == all[i as int]);
        if i > 0 {
            out.push(COMMA);
        }
        let mut name = match write_string(fields[i].0.as_str()) {
            Ok(b) => b,
            Err(e) => return Err(e),
        };
        let mut value = match write_string(fields[i].1.as_str()) {
            Ok(b) => b,
            Err(e) => return Err(e),
        };
        let ghost (name_bytes, value_bytes) = (name@, value@);
        out.append(&mut name);
        out.push(COLON);
        out.append(&mut value);
        proof {
            assert(out@ =~= seq![OPEN_BRACE] + members(next));
            assert forall|j: int| 0 <= j < next.len() implies quoted(
                json_string((#[trigger] next[j]).0),
            ) && quoted(json_string(next[j].1)) by {
                if j < i {
                    assert(next[j] == all.take(i as int)[j]);
                }
            }
            assert forall|j: int, t: Seq<char>|
                #![trigger next[j], json_string(t)]
                0 <= j < next.len() implies (json_string(t) == json_string(next[j].0) ==> t
                == next[j].0) && (json_string(t) == json_string(next[j].1) ==> t == next[j].1) by {
                if j < i {
                    assert(next[j] == all.take(i as int)[j]);
                } else {
                    assert(json_string(next[j].0) == name_bytes);
                    assert(json_string(next[j].1) == value_bytes);
                }
            }
        }
        i += 1;
    }
    assert(all.take(fields@.len() as int) =~= all);
    out.push(CLOSE_BRACE);
    Ok(out)
}

/// Where a walk over the bytes of a JSON value stands: how many brackets are
/// open, whether it is inside a string and just behind a backslash, the first
/// byte that is no white space (zero while there is none), the bytes of the
/// part that it is in, and the parts behind it. A part is a name or a value
/// between the outermost brackets.
pub ghost struct Walk {
    pub depth: nat,
    pub in_string: bool,
    pub escaped: bool,
    pub first: u8,
    pub current: Seq<u8>,
    pub parts: Seq<Seq<u8>>,
}

/// The start of a walk.
pub open spec fn walk_start() -> Walk {
    Walk {
        depth: 0,
        in_string: false,
        escaped: false,
        first: 0,
        current: Seq::empty(),
        parts: Seq::empty(),
    }
}

/// The white space of JSON.
pub open spec fn is_json_space(b: u8) -> bool {
    b == 32 || b == 9 || b == 10 || b == 13
}

/// One step of a walk.
pub open spec fn walk_step(w: Walk, b: u8) -> Walk {
    if w.in_string {
        Walk {
            in_string: w.escaped || b != QUOTE,
            escaped: !w.escaped && b == BACKSLASH,
            current: w.current.push(b),
            ..w
        }
    } else if w.depth == 0 {
        if w.first != 0 || is_json_space(b) {
            w
        } else {
            Walk {
                first: b,
                depth: if b == OPEN_BRACE || b == OPEN_BRACKET {
                    1
                } else {
                    0
                },
                ..w
            }
        }
    } else if w.depth == 1 && (b == COMMA || b == COLON) {
        Walk { current: Seq::empty(), parts: w.parts.push(w.current), ..w }
    } else if w.depth == 1 && (b == CLOSE_BRACE || b == CLOSE_BRACKET) {
        Walk { depth: 0, current: Seq::empty(), parts: w.parts.push(w.current), ..w }
    } else {
        Walk {
            depth: if b == OPEN_BRACE || b == OPEN_BRACKET {
                w.depth + 1
            } else if b == CLOSE_BRACE || b == CLOSE_BRACKET {
                (w.depth - 1) as nat
            } else {
                w.depth
            },
            in_string: b == QUOTE,
            current: w.current.push(b),
            ..w
        }
    }
}

/// A walk over some bytes from where it stands.
pub open spec fn walk(w: Walk, bytes: Seq<u8>) -> Walk
    decreases bytes.len(),
{
    if bytes.len() == 0 {
        w
    } else {
        walk(walk_step(w, bytes[0]), bytes.skip(1))
    }
}

/// The parts between the outermost brackets of a JSON value: of an object the
/// names and values in turn, of an array its elements.
pub struct Parts {
    pub first: u8,
    pub parts: Vec<Vec<u8>>,
}

/// The bytes of each part.
pub open spec fn part_views(parts: Seq<Vec<u8>>) -> Seq<Seq<u8>> {
    parts.map_values(|p: Vec<u8>| p@)
}

/// Splits a JSON value into the parts between its outermost brackets.
pub fn split_parts(bytes: &[u8]) -> (r: Parts)
    ensures
        r.first == walk(walk_start(), bytes@).first,
        part_views(r.parts@) == walk(walk_start(), bytes@).parts,
{
    let mut depth: usize = 0;
    let mut in_string: bool = false;
    let mut escaped: bool = false;
    let mut first: u8 = 0;
    let mut current: Vec<u8> = Vec::new();
    let mut parts: Vec<Vec<u8>> = Vec::new();
    let ghost mut w = walk_start();
    let n: usize = bytes.len();
    let mut i: usize = 0;
    assert(bytes@.skip(0) =~= bytes@);
    assert(part_views(parts@) =~= Seq::empty());
    while i < n
        invariant
            i <= n == bytes@.len(),
            depth <= i,
            w == (Walk {
                depth: depth as nat,
                in_string,
                escaped,
                first,
                current: current@,
                parts: part_views(parts@),
            }),
            walk(w, bytes@.skip(i as int)) == walk(walk_start(), bytes@),
        decreases n - i,
    {
        let b: u8 = bytes[i];
        let ghost next = walk_step(w, b);
        assert(bytes@.skip(i as int)[0] == b);
        assert(bytes@.skip(i as int).skip(1) =~= bytes@.skip(i + 1));
        let ghost old_parts = parts@;
        if in_string {
            current.push(b);
            if escaped {
                escaped = false;
            } else if b == BACKSLASH {
                escaped = true;
            } else if b == QUOTE {
                in_string = false;
            }
        } else if depth == 0 {
            if first == 0 && !(b == 32 || b == 9 || b == 10 || b == 13) {
                first = b;
                if b == OPEN_BRACE || b == OPEN_BRACKET {
                    depth = 1;
                }
            }
        } else if depth == 1 && (b == COMMA || b == COLON) {
            parts.push(current);
            current = Vec::new();
            assert(part_views(parts@) =~= part_views(old_parts).push(w.current));
        } else if depth == 1 && (b == CLOSE_BRACE || b == CLOSE_BRACKET) {
            parts.push(current);
            current = Vec::new();
            depth = 0;
            assert(part_views(parts@) =~= part_views(old_parts).push(w.current));
        } else {
            current.push(b);
            if b == OPEN_BRACE || b == OPEN_BRACKET {
                depth += 1;
            } else if b == CLOSE_BRACE || b == CLOSE_BRACKET {
                depth -= 1;
            } else if b == QUOTE {
                in_string = true;
            }
        }
        proof {
            w = next;
        }
        i += 1;
    }
    assert(bytes@.skip(n as int) =~= Seq::<u8>::empty());
    Parts { first, parts }
}

proof fn walk_concat(w: Walk, a: Seq<u8>, b: Seq<u8>)
    ensures
        walk(w, a + b) == walk(walk(w, a), b),
    decreases a.len(),
{
    if a.len() == 0 {
        assert(a + b =~= b);
    } else {
        assert((a + b).skip(1) =~= a.skip(1) + b);
        walk_concat(walk_step(w, a[0]), a.skip(1), b);
    }
}

/// A walk that is inside a string between the brackets goes to its end.
proof fn walk_closes(w: Walk, rest: Seq<u8>)
    requires
        w.in_string,
        !w.escaped,
        closes_string(rest),
    ensures
        walk(w, rest) == (Walk { in_string: false, current: w.current + rest, ..w }),
    decreases rest.len(),
{
    let next = walk_step(w, rest[0]);
    if rest[0] == QUOTE {
        assert(walk(next, rest.skip(1)) == next);
        assert(w.current.push(rest[0]) =~= w.current + rest);
    } else if rest[0] == BACKSLASH {
        let after = walk_step(next, rest[1]);
        assert(rest.skip(1)[0] == rest[1]);
        assert(rest.skip(1).skip(1) =~= rest.skip(2));
        assert(walk(next, rest.skip(1)) == walk(after, rest.skip(2)));
        walk_closes(after, rest.skip(2));
        assert(after.current + rest.skip(2) =~= w.current + rest);
    } else {
        walk_closes(next, rest.skip(1));
        assert(next.current + rest.skip(1) =~= w.current + rest);
    }
}

/// A walk between the outermost brackets takes a quoted string whole.
proof fn walk_quoted(w: Walk, bytes: Seq<u8>)
    requires
        w.depth == 1,
        !w.in_string,
        !w.escaped,
        quoted(bytes),
    ensures
        walk(w, bytes) == (Walk { current: w.current + bytes, ..w }),
{
    let next = walk_step(w, bytes[0]);
    walk_closes(next, bytes.skip(1));
    assert(next.current + bytes.skip(1) =~= w.current + bytes);
}

/// The names and texts of some members in turn, as JSON strings.
pub open spec fn member_parts(fields: Seq<(Seq<char>, Seq<char>)>) -> Seq<Seq<u8>> {
    Seq::new(
        2 * fields.len(),
        |i: int|
            if i % 2 == 0 {
                json_string(fields[i / 2].0)
            } else {
                json_string(fields[i / 2].1)
            },
    )
}

/// A walk over one member ends in its text, with its name as a part behind it.
proof fn walk_member(w: Walk, field: (Seq<char>, Seq<char>))
    requires
        w.depth == 1,
        !w.in_string,
        !w.escaped,
        w.current.len() == 0,
        quoted(json_string(field.0)),
        quoted(json_string(field.1)),
    ensures
        walk(w, member(field)) == (Walk {
            current: json_string(field.1),
            parts: w.parts.push(json_string(field.0)),
            ..w
        }),
{
    let name = json_string(field.0);
    let value = json_string(field.1);
    walk_concat(w, name + seq![COLON], value);
    walk_concat(w, name, seq![COLON]);
    walk_quoted(w, name);
    assert(w.current + name =~= name);
    let named = walk(w, name);
    assert(seq![COLON].skip(1).len() == 0);
    let colon = walk_step(named, COLON);
    assert(walk(named, seq![COLON]) == walk(colon, seq![COLON].skip(1)));
    assert(walk(colon, seq![COLON].skip(1)) == colon);
    walk_quoted(colon, value);
    assert(Seq::<u8>::empty() + value =~= value);
}

proof fn walk_members(w: Walk, fields: Seq<(Seq<char>, Seq<char>)>)
    requires
        w.depth == 1,
        !w.in_string,
        !w.escaped,
        w.current.len() == 0,
        w.parts.len() == 0,
        fields.len() > 0,
        all_quoted(fields),
    ensures
        walk(w, members(fields)) == (Walk {
            current: member_parts(fields).last(),
            parts: member_parts(fields).drop_last(),
            ..w
        }),
    decreases fields.len(),
{
    let last = fields.last();
    let n = fields.len();
    assert(last == fields[n - 1]);
    if n == 1 {
        walk_member(w, fields[0]);
        assert(member_parts(fields).drop_last() =~= w.parts.push(json_string(fields[0].0)));
    } else {
        let init = fields.drop_last();
        assert forall|i: int| 0 <= i < init.len() implies quoted(
            json_string((#[trigger] init[i]).0),
        ) && quoted(json_string(init[i].1)) by {
            assert(init[i] == fields[i]);
        }
        walk_members(w, init);
        walk_concat(w, members(init) + seq![COMMA], member(last));
        walk_concat(w, members(init), seq![COMMA]);
        let before = walk(w, members(init));
        let comma = walk_step(before, COMMA);
        assert(seq![COMMA].skip(1).len() == 0);
        assert(walk(before, seq![COMMA]) == walk(comma, seq![COMMA].skip(1)));
        assert(walk(comma, seq![COMMA].skip(1)) == comma);
        assert(comma.parts =~= member_parts(init));
        walk_member(comma, last);
        assert(member_parts(fields).drop_last() =~= member_parts(init).push(json_string(last.0)))
            by {
            assert forall|i: int| 0 <= i < 2 * n - 1 implies member_parts(fields)[i]
                == member_parts(init).push(json_string(last.0))[i] by {
                if i < 2 * n - 2 {
                    assert(init[i / 2] == fields[i / 2]);
                }
            }
        }
    }
}

/// An object of quoted members falls apart into its names and texts.
pub proof fn object_parts(fields: Seq<(Seq<char>, Seq<char>)>)
    requires
        fields.len() > 0,
        all_quoted(fields),
    ensures
        walk(walk_start(), json_object(fields)).first == OPEN_BRACE,
        walk(walk_start(), json_object(fields)).parts == member_parts(fields),
{
    let open = seq![OPEN_BRACE];
    let close = seq![CLOSE_BRACE];
    walk_concat(walk_start(), open + members(fields), close);
    walk_concat(walk_start(), open, members(fields));
    let inside = walk_step(walk_start(), OPEN_BRACE);
    assert(open.skip(1).len() == 0);
    assert(walk(walk_start(), open) == walk(inside, open.skip(1)));
    assert(walk(inside, open.skip(1)) == inside);
    walk_members(inside, fields);
    let before = walk(inside, members(fields));
    assert(close.skip(1).len() == 0);
    let end = walk_step(before, CLOSE_BRACE);
    assert(walk(before, close) == walk(end, close.skip(1)));
    assert(walk(end, close.skip(1)) == end);
    assert(end.parts =~= member_parts(fields));
}

/// One object is written for one list of members only.
pub proof fn objects_differ(a: Seq<(Seq<char>, Seq<char>)>, b: Seq<(Seq<char>, Seq<char>)>)
    requires
        a.len() > 0,
        b.len() > 0,
        all_quoted(a),
        all_quoted(b),
        told_apart(a),
        json_object(a) == json_object(b),
    ensures
        a == b,
{
    object_parts(a);
    object_parts(b);
    let x = member_parts(a);
    let y = member_parts(b);
    assert(x.len() == 2 * a.len() && y.len() == 2 * b.len());
    assert forall|i: int| 0 <= i < a.len() implies a[i] == b[i] by {
        assert((2 * i) / 2 == i && (2 * i) % 2 == 0);
        assert((2 * i + 1) / 2 == i && (2 * i + 1) % 2 == 1);
        assert(x[2 * i] == y[2 * i]);
        assert(x[2 * i + 1] == y[2 * i + 1]);
        assert(json_string(b[i].0) == json_string(a[i].0));
        assert(json_string(b[i].1) == json_string(a[i].1));
    }
    assert(a =~= b);
}

} // verus!
