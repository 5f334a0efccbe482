//! Session descriptions and the connection strings that carry them.
//!
//! A connection string is Base58 over a JSON object. The object holds the
//! description, compressed and again in Base58, and, where it is not empty,
//! where an answer is left, the key and the nonce.

use crate::base58::{
    all_base58, base58_bytes, base58_decode, base58_encode, base58_needs_its_alphabet,
    base58_reads_back, base58_text, base58_text_form, base58_texts_differ, is_base58,
};
use crate::codec::{
    aes_decrypt, aes_encrypt, hex_bytes, hex_decode, hex_encode, hex_reads_back, hex_text, opened, sealed, zlib_compress,
    zlib_compressed, zlib_decompress_text, zlib_text, KEY_LEN, MAX_PLAIN_LEN, NONCE_LEN,
    TAG_LEN,
};
use crate::json::{
    all_quoted, check_json, field_views, is_json, json_object, json_string, json_string_value,
    member_parts, members, object_parts, objects_differ, part_views, read_string, split_parts, told_apart,
    walk, walk_start, write_object, OPEN_BRACE, OPEN_BRACKET,
};
use crate::random::random_bytes;
use vstd::prelude::*;
use vstd::utf8::*;

verus! {

/// Why a connection string could not be written or read, or a description not
/// be encrypted or decrypted.
#[derive(Debug, Clone, PartialEq)]
pub enum SdpError {
    Compress,
    Json,
    OuterBase58,
    InnerBase58,
    /// What was compressed cannot be taken out as a text, and why.
    Inflate(String),
    KeyHex,
    NonceHex,
    CiphertextHex,
    KeyLength,
    Cipher,
    /// What was decrypted is no text, and why.
    NotText(String),
}

/// The same with the characters of the words.
#[verifier::ext_equal]
pub ghost enum SdpFault {
    Compress,
    Json,
    OuterBase58,
    InnerBase58,
    Inflate(Seq<char>),
    KeyHex,
    NonceHex,
    CiphertextHex,
    KeyLength,
    Cipher,
    NotText(Seq<char>),
}

impl View for SdpError {
    type V = SdpFault;

    open spec fn view(&self) -> SdpFault {
        match self {
            SdpError::Compress => SdpFault::Compress,
            SdpError::Json => SdpFault::Json,
            SdpError::OuterBase58 => SdpFault::OuterBase58,
            SdpError::InnerBase58 => SdpFault::InnerBase58,
            SdpError::Inflate(e) => SdpFault::Inflate(e@),
            SdpError::KeyHex => SdpFault::KeyHex,
            SdpError::NonceHex => SdpFault::NonceHex,
            SdpError::CiphertextHex => SdpFault::CiphertextHex,
            SdpError::KeyLength => SdpFault::KeyLength,
            SdpError::Cipher => SdpFault::Cipher,
            SdpError::NotText(e) => SdpFault::NotText(e@),
        }
    }
}

impl SdpError {
    /// What the error says.
    pub open spec fn spec_message(self) -> Seq<char> {
        match self {
            SdpError::Compress => "deflate failed"@,
            SdpError::Json => "json decode failed"@,
            SdpError::OuterBase58 => "base58 decode outer failed"@,
            SdpError::InnerBase58 => "base58 decode inner sdp failed"@,
            SdpError::Inflate(e) => e@,
            SdpError::KeyHex => "decode key hex"@,
            SdpError::NonceHex => "decode nonce hex"@,
            SdpError::CiphertextHex => "decode ciphertext hex"@,
            SdpError::KeyLength => "Invalid Length"@,
            SdpError::Cipher => "aead::Error"@,
            SdpError::NotText(e) => e@,
        }
    }

    pub fn message(&self) -> (r: String)
        ensures
            r@ == self.spec_message(),
            self is Compress ==> r@ == "deflate failed"@,
            self is KeyHex ==> r@ == "decode key hex"@,
            self is NonceHex ==> r@ == "decode nonce hex"@,
            self is KeyLength ==> r@ == "Invalid Length"@,
            self is Cipher ==> r@ == "aead::Error"@,
    {
        match self {
            SdpError::Compress => "deflate failed".to_string(),
            SdpError::Json => "json decode failed".to_string(),
            SdpError::OuterBase58 => "base58 decode outer failed".to_string(),
            SdpError::InnerBase58 => "base58 decode inner sdp failed".to_string(),
            SdpError::Inflate(e) => e.clone(),
            SdpError::KeyHex => "decode key hex".to_string(),
            SdpError::NonceHex => "decode nonce hex".to_string(),
            SdpError::CiphertextHex => "decode ciphertext hex".to_string(),
            SdpError::KeyLength => "Invalid Length".to_string(),
            SdpError::Cipher => "aead::Error".to_string(),
            SdpError::NotText(e) => e.clone(),
        }
    }
}

/// A session description with what an encrypted exchange needs beside it.
#[derive(Debug, Clone, PartialEq)]
pub struct SessionDescription {
    pub sdp: String,
    pub ten_kb_site_loc: String,
    pub key: String,
    pub nonce: String,
}

/// The texts of a session description.
#[verifier::ext_equal]
pub ghost struct SdpView {
    pub sdp: Seq<char>,
    pub ten_kb_site_loc: Seq<char>,
    pub key: Seq<char>,
    pub nonce: Seq<char>,
}

impl View for SessionDescription {
    type V = SdpView;

    open spec fn view(&self) -> SdpView {
        SdpView {
            sdp: self.sdp@,
            ten_kb_site_loc: self.ten_kb_site_loc@,
            key: self.key@,
            nonce: self.nonce@,
        }
    }
}

/// A field that is left out where its text is empty.
pub open spec fn optional_field(name: Seq<char>, text: Seq<char>) -> Seq<(Seq<char>, Seq<char>)> {
    if text.len() == 0 {
        Seq::empty()
    } else {
        seq![(name, text)]
    }
}

/// The fields of the object in a connection string, in their order.
pub open spec fn wire_fields(v: SdpView) -> Seq<(Seq<char>, Seq<char>)> {
    seq![("sdp"@, v.sdp)] + optional_field("ten_kb_site_loc"@, v.ten_kb_site_loc) + optional_field(
        "key"@,
        v.key,
    ) + optional_field("nonce"@, v.nonce)
}

/// A description as the object in a connection string holds it.
pub open spec fn packed(v: SdpView) -> SdpView {
    SdpView { sdp: base58_text(zlib_compressed(encode_utf8(v.sdp))), ..v }
}

/// The connection string of a description.
pub open spec fn connection_string(v: SdpView) -> Seq<char> {
    base58_text(json_object(wire_fields(packed(v))))
}

/// Whether `text` is the connection string of `v`, made of JSON strings that
/// are quoted as JSON asks.
pub open spec fn written(v: SdpView, text: Seq<char>) -> bool {
    &&& text == connection_string(v)
    &&& all_quoted(wire_fields(packed(v)))
}

/// A further member of an object, behind a comma, where its text is not empty.
pub open spec fn further_member(name: Seq<char>, text: Seq<char>) -> Seq<u8> {
    if text.len() == 0 {
        Seq::empty()
    } else {
        seq![44u8] + json_string(name) + seq![58u8] + json_string(text)
    }
}

/// The JSON in a connection string is an object with the compressed description
/// in Base58 first, and behind it what of the rest is not empty.
pub proof fn connection_string_holds_an_object(v: SdpView)
    ensures
        connection_string(v) == base58_text(
            seq![123u8] + json_string("sdp"@) + seq![58u8] + json_string(
                base58_text(zlib_compressed(encode_utf8(v.sdp))),
            ) + further_member("ten_kb_site_loc"@, v.ten_kb_site_loc) + further_member(
                "key"@,
                v.key,
            ) + further_member("nonce"@, v.nonce) + seq![125u8],
        ),
{
    let p = packed(v);
    let sdp = seq![("sdp"@, p.sdp)];
    let loc = optional_field("ten_kb_site_loc"@, p.ten_kb_site_loc);
    let key = optional_field("key"@, p.key);
    let nonce = optional_field("nonce"@, p.nonce);
    members_with_further(sdp, "ten_kb_site_loc"@, p.ten_kb_site_loc);
    members_with_further(sdp + loc, "key"@, p.key);
    members_with_further(sdp + loc + key, "nonce"@, p.nonce);
    let all = wire_fields(p);
    assert(all =~= sdp + loc + key + nonce);
    assert(members(sdp) == json_string("sdp"@) + seq![58u8] + json_string(p.sdp));
    assert(json_object(all) =~= seq![123u8] + json_string("sdp"@) + seq![58u8] + json_string(p.sdp)
        + further_member("ten_kb_site_loc"@, v.ten_kb_site_loc) + further_member("key"@, v.key)
        + further_member("nonce"@, v.nonce) + seq![125u8]);
}

proof fn members_with_further(
    fields: Seq<(Seq<char>, Seq<char>)>,
    name: Seq<char>,
    text: Seq<char>,
)
    requires
        fields.len() > 0,
    ensures
        members(fields + optional_field(name, text)) == members(fields) + further_member(
            name,
            text,
        ),
{
    let more = fields + optional_field(name, text);
    if text.len() == 0 {
        assert(more =~= fields);
        assert(members(fields) + further_member(name, text) =~= members(fields));
    } else {
        assert(more.drop_last() =~= fields);
        assert(more.last() == (name, text));
        assert(members(fields) + seq![44u8] + (json_string(name) + seq![58u8] + json_string(text))
            =~= members(fields) + further_member(name, text));
    }
}

/// What the texts of an object say of one field.
pub ghost enum Field {
    Absent,
    Holds(Seq<char>),
    Unusable,
}

/// What the first `n` members say of a field: nothing, its text where it stands
/// once with a text, or that it cannot be used, where it stands twice or holds
/// no text. Names and values stand in turn; what is no JSON string is `None`.
pub open spec fn field_in(texts: Seq<Option<Seq<char>>>, name: Seq<char>, n: nat) -> Field
    decreases n,
{
    if n == 0 {
        Field::Absent
    } else {
        let before = field_in(texts, name, (n - 1) as nat);
        if texts[2 * n - 2] == Some(name) {
            if before is Absent && texts[2 * n - 1] is Some {
                Field::Holds(texts[2 * n - 1]->0)
            } else {
                Field::Unusable
            }
        } else {
            before
        }
    }
}

/// Whether one member, and no other, has this name and holds this text.
pub open spec fn only_member(
    texts: Seq<Option<Seq<char>>>,
    name: Seq<char>,
    n: nat,
    i: int,
    text: Seq<char>,
) -> bool {
    &&& 0 <= i < n
    &&& texts[2 * i] == Some(name)
    &&& texts[2 * i + 1] == Some(text)
    &&& forall|j: int| 0 <= j < n && j != i ==> #[trigger] texts[2 * j] != Some(name)
}

/// A field is absent exactly where no member has its name, and holds a text
/// exactly where one member has its name, and that one holds the text.
pub proof fn field_is_found_by_its_name(texts: Seq<Option<Seq<char>>>, name: Seq<char>, n: nat)
    ensures
        field_in(texts, name, n) is Absent <==> forall|j: int|
            0 <= j < n ==> #[trigger] texts[2 * j] != Some(name),
        forall|i: int, text: Seq<char>| #[trigger]
            only_member(texts, name, n, i, text) ==> field_in(texts, name, n) == Field::Holds(text),
        field_in(texts, name, n) is Holds ==> exists|i: int| #[trigger]
            only_member(texts, name, n, i, field_in(texts, name, n)->Holds_0),
    decreases n,
{
    if n > 0 {
        let m = n - 1;
        field_is_found_by_its_name(texts, name, m as nat);
        let before = field_in(texts, name, m as nat);
        assert(2 * n - 2 == 2 * m && 2 * n - 1 == 2 * m + 1);
        if texts[2 * m] == Some(name) {
            assert forall|i: int, text: Seq<char>| #[trigger]
                only_member(texts, name, n, i, text) implies field_in(texts, name, n)
                == Field::Holds(text) by {
                assert(texts[2 * m] == Some(name));
                assert(i == m);
                assert(forall|j: int| 0 <= j < m ==> #[trigger] texts[2 * j] != Some(name));
            }
            assert(!(forall|j: int| 0 <= j < n ==> #[trigger] texts[2 * j] != Some(name))) by {
                assert(texts[2 * m] == Some(name));
            }
            if before is Absent && texts[2 * m + 1] is Some {
                assert forall|j: int| 0 <= j < n && j != m implies #[trigger] texts[2 * j] != Some(
                    name,
                ) by {
                    assert(j < m);
                }
                assert(field_in(texts, name, n) == Field::Holds(texts[2 * m + 1]->0));
                assert(only_member(texts, name, n, m, field_in(texts, name, n)->Holds_0));
            }
        } else {
            assert forall|i: int, text: Seq<char>| #[trigger]
                only_member(texts, name, n, i, text) implies field_in(texts, name, n)
                == Field::Holds(text) by {
                assert(i != m);
                assert(only_member(texts, name, m as nat, i, text));
            }
            if before is Holds {
                let i = choose|i: int| #[trigger] only_member(texts, name, m as nat, i, before->Holds_0);
                assert forall|j: int| 0 <= j < n && j != i implies #[trigger] texts[2 * j] != Some(
                    name,
                ) by {
                    assert(j < m || j == m);
                }
                assert(field_in(texts, name, n) == before);
                assert(only_member(texts, name, n, i, field_in(texts, name, n)->Holds_0));
            }
            if before is Absent {
                assert forall|j: int| 0 <= j < n implies #[trigger] texts[2 * j] != Some(name) by {
                    assert(j < m || j == m);
                }
            }
        }
    }
}

/// The text of a field, empty where it is absent.
pub open spec fn field_or_empty(f: Field) -> Seq<char> {
    match f {
        Field::Holds(t) => t,
        _ => Seq::empty(),
    }
}

/// The description that an object of some names and values holds: each name
/// must be a JSON string, `sdp` must be there, and no field of a description
/// may be unusable. Fields of other names are passed over.
pub open spec fn object_fields(texts: Seq<Option<Seq<char>>>) -> Option<SdpView> {
    let n = texts.len() / 2;
    let sdp = field_in(texts, "sdp"@, n);
    let loc = field_in(texts, "ten_kb_site_loc"@, n);
    let key = field_in(texts, "key"@, n);
    let nonce = field_in(texts, "nonce"@, n);
    if texts.len() % 2 == 0 && (forall|i: int| 0 <= i < n ==> #[trigger] texts[2 * i] is Some)
        && sdp is Holds && !(loc is Unusable) && !(key is Unusable) && !(nonce is Unusable) {
        Some(
            SdpView {
                sdp: field_or_empty(sdp),
                ten_kb_site_loc: field_or_empty(loc),
                key: field_or_empty(key),
                nonce: field_or_empty(nonce),
            },
        )
    } else {
        None
    }
}

/// An object is read by the names of its members, in whatever order they stand
/// and whatever others stand between them.
pub proof fn object_is_read_by_names(texts: Seq<Option<Seq<char>>>, v: SdpView)
    requires
        texts.len() % 2 == 0,
        forall|i: int| 0 <= i < texts.len() / 2 ==> #[trigger] texts[2 * i] is Some,
        exists|i: int| #[trigger] only_member(texts, "sdp"@, texts.len() / 2, i, v.sdp),
        found_or_empty(texts, "ten_kb_site_loc"@, v.ten_kb_site_loc),
        found_or_empty(texts, "key"@, v.key),
        found_or_empty(texts, "nonce"@, v.nonce),
    ensures
        object_fields(texts) == Some(v),
{
    let n = texts.len() / 2;
    field_is_found_by_its_name(texts, "sdp"@, n);
    field_is_found_by_its_name(texts, "ten_kb_site_loc"@, n);
    field_is_found_by_its_name(texts, "key"@, n);
    field_is_found_by_its_name(texts, "nonce"@, n);
    let r = object_fields(texts)->0;
    assert(r.ten_kb_site_loc =~= v.ten_kb_site_loc);
    assert(r.key =~= v.key);
    assert(r.nonce =~= v.nonce);
}

/// Whether one member has this name and holds this text, or the text is empty and
/// no member has the name.
pub open spec fn found_or_empty(
    texts: Seq<Option<Seq<char>>>,
    name: Seq<char>,
    text: Seq<char>,
) -> bool {
    ||| exists|i: int| #[trigger] only_member(texts, name, texts.len() / 2, i, text)
    ||| text.len() == 0 && forall|j: int|
        0 <= j < texts.len() / 2 ==> #[trigger] texts[2 * j] != Some(name)
}

/// The element of an array at `i`, empty where the array is shorter.
pub open spec fn element_or_empty(texts: Seq<Option<Seq<char>>>, i: int) -> Seq<char> {
    if i < texts.len() {
        texts[i]->0
    } else {
        Seq::empty()
    }
}

/// The description that an array of one to four texts holds, by position.
pub open spec fn array_fields(texts: Seq<Option<Seq<char>>>) -> Option<SdpView> {
    if 1 <= texts.len() <= 4 && forall|i: int|
        0 <= i < texts.len() ==> #[trigger] texts[i] is Some {
        Some(
            SdpView {
                sdp: element_or_empty(texts, 0),
                ten_kb_site_loc: element_or_empty(texts, 1),
                key: element_or_empty(texts, 2),
                nonce: element_or_empty(texts, 3),
            },
        )
    } else {
        None
    }
}

/// The text of each part that is a JSON string.
pub open spec fn part_texts(parts: Seq<Seq<u8>>) -> Seq<Option<Seq<char>>> {
    parts.map_values(|p: Seq<u8>| json_string_value(p))
}

/// The description in some JSON, still packed.
pub open spec fn wire_description(bytes: Seq<u8>) -> Option<SdpView> {
    let w = walk(walk_start(), bytes);
    if !is_json(bytes) {
        None
    } else if w.first == OPEN_BRACE {
        object_fields(part_texts(w.parts))
    } else if w.first == OPEN_BRACKET {
        array_fields(part_texts(w.parts))
    } else {
        None
    }
}

/// What a connection string holds.
pub open spec fn read_connection_string(text: Seq<char>) -> Result<SdpView, SdpFault> {
    match base58_bytes(text) {
        None => Err(SdpFault::OuterBase58),
        Some(bytes) => match wire_description(bytes) {
            None => Err(SdpFault::Json),
            Some(p) => match base58_bytes(p.sdp) {
                None => Err(SdpFault::InnerBase58),
                Some(z) => match zlib_text(z) {
                    Err(e) => Err(SdpFault::Inflate(e)),
                    Ok(sdp) => Ok(SdpView { sdp, ..p }),
                },
            },
        },
    }
}

/// A list of optional texts by their characters.
pub open spec fn option_views(v: Seq<Option<String>>) -> Seq<Option<Seq<char>>> {
    v.map_values(
        |t: Option<String>|
            match t {
                Some(s) => Some(s@),
                None => None,
            },
    )
}

enum FieldText {
    Absent,
    Holds(String),
    Unusable,
}

spec fn field_text_view(f: FieldText) -> Field {
    match f {
        FieldText::Absent => Field::Absent,
        FieldText::Holds(s) => Field::Holds(s@),
        FieldText::Unusable => Field::Unusable,
    }
}

fn find_field(texts: &Vec<Option<String>>, name: &str) -> (r: FieldText)
    ensures
        field_text_view(r) == field_in(option_views(texts@), name@, texts@.len() / 2),
{
    let ghost views = option_views(texts@);
    let mut found = FieldText::Absent;
    let pairs: usize = texts.len() / 2;
    let mut i: usize = 0;
    while i < pairs
        invariant
            i <= pairs == texts@.len() / 2,
            pairs <= usize::MAX / 2,
            views == option_views(texts@),
            field_text_view(found) == field_in(views, name@, i as nat),
        decreases pairs - i,
    {
        assert(views[2 * (i + 1) - 2] == views[2 * i]);
        assert(views[2 * (i + 1) - 1] == views[2 * i + 1]);
        if let Some(n) = &texts[2 * i] {
            if crate::text::same_text(n.as_str(), name) {
                found = match (&found, &texts[2 * i + 1]) {
                    (FieldText::Absent, Some(t)) => FieldText::Holds(t.clone()),
                    _ => FieldText::Unusable,
                };
            }
        }
        i += 1;
    }
    found
}

fn or_empty(f: FieldText) -> (r: Option<String>)
    ensures
        r is None <==> f is Unusable,
        r matches Some(s) ==> s@ == field_or_empty(field_text_view(f)),
{
    match f {
        FieldText::Absent => Some(String::new()),
        FieldText::Holds(s) => Some(s),
        FieldText::Unusable => None,
    }
}

/// The description that an object of some names and values holds.
pub fn from_object(texts: &Vec<Option<String>>) -> (r: Option<SessionDescription>)
    ensures
        r is Some <==> object_fields(option_views(texts@)) is Some,
        r matches Some(sd) ==> object_fields(option_views(texts@)) == Some(sd@),
{
    let ghost views = option_views(texts@);
    if texts.len() % 2 != 0 {
        return None;
    }
    let pairs: usize = texts.len() / 2;
    let mut i: usize = 0;
    while i < pairs
        invariant
            i <= pairs == texts@.len() / 2,
            pairs <= usize::MAX / 2,
            views == option_views(texts@),
            forall|j: int| 0 <= j < i ==> #[trigger] views[2 * j] is Some,
        decreases pairs - i,
    {
        if texts[2 * i].is_none() {
            assert(views[2 * i] is None);
            return None;
        }
        i += 1;
    }
    let sdp = match find_field(texts, "sdp") {
        FieldText::Holds(s) => s,
        _ => return None,
    };
    let loc = or_empty(find_field(texts, "ten_kb_site_loc"));
    let key = or_empty(find_field(texts, "key"));
    let nonce = or_empty(find_field(texts, "nonce"));
    match (loc, key, nonce) {
        (Some(ten_kb_site_loc), Some(key), Some(nonce)) => Some(
            SessionDescription { sdp, ten_kb_site_loc, key, nonce },
        ),
        _ => None,
    }
}

fn element(texts: &Vec<Option<String>>, i: usize) -> (r: String)
    requires
        i < texts@.len() ==> texts@[i as int] is Some,
    ensures
        r@ == element_or_empty(option_views(texts@), i as int),
{
    if i < texts.len() {
        match &texts[i] {
            Some(s) => s.clone(),
            None => String::new(),
        }
    } else {
        String::new()
    }
}

/// The description that an array of texts holds.
pub fn from_array(texts: &Vec<Option<String>>) -> (r: Option<SessionDescription>)
    ensures
        r is Some <==> array_fields(option_views(texts@)) is Some,
        r matches Some(sd) ==> array_fields(option_views(texts@)) == Some(sd@),
        r is Some <==> 1 <= texts@.len() <= 4 && forall|i: int|
            0 <= i < texts@.len() ==> #[trigger] texts@[i] is Some,
        r matches Some(sd) ==> {
            &&& sd.sdp@ == texts@[0]->0@
            &&& sd.ten_kb_site_loc@ == (if texts@.len() > 1 {
                texts@[1]->0@
            } else {
                Seq::empty()
            })
            &&& sd.key@ == (if texts@.len() > 2 {
                texts@[2]->0@
            } else {
                Seq::empty()
            })
            &&& sd.nonce@ == (if texts@.len() > 3 {
                texts@[3]->0@
            } else {
                Seq::empty()
            })
        },
{
    let ghost views = option_views(texts@);
    if texts.len() == 0 || texts.len() > 4 {
        return None;
    }
    let mut i: usize = 0;
    while i < texts.len()
        invariant
            i <= texts@.len(),
            views == option_views(texts@),
            forall|j: int| 0 <= j < i ==> #[trigger] views[j] is Some,
        decreases texts@.len() - i,
    {
        if texts[i].is_none() {
            assert(views[i as int] is None);
            assert(texts@[i as int] is None);
            return None;
        }
        i += 1;
    }
    assert forall|j: int| 0 <= j < texts@.len() implies #[trigger] texts@[j] is Some by {
        assert(views[j] is Some);
    }
    Some(
        SessionDescription {
            sdp: element(texts, 0),
            ten_kb_site_loc: element(texts, 1),
            key: element(texts, 2),
            nonce: element(texts, 3),
        },
    )
}

/// Whether each part that is the JSON string of a text reads as that text.
spec fn reads_back(parts: Seq<Seq<u8>>) -> bool {
    forall|i: int, t: Seq<char>|
        #![trigger parts[i], json_string(t)]
        0 <= i < parts.len() && parts[i] == json_string(t) ==> json_string_value(parts[i]) == Some(
            t,
        )
}

fn read_parts(parts: &Vec<Vec<u8>>) -> (r: Vec<Option<String>>)
    ensures
        option_views(r@) == part_texts(part_views(parts@)),
        reads_back(part_views(parts@)),
{
    let ghost views = part_views(parts@);
    let mut texts: Vec<Option<String>> = Vec::new();
    let mut i: usize = 0;
    assert(option_views(texts@) =~= part_texts(views.take(0)));
    while i < parts.len()
        invariant
            i <= parts@.len(),
            views == part_views(parts@),
            option_views(texts@) == part_texts(views.take(i as int)),
            reads_back(views.take(i as int)),
        decreases parts@.len() - i,
    {
        let ghost before = texts@;
        let text = match read_string(parts[i].as_slice()) {
            Ok(s) => Some(s),
            Err(_) => None,
        };
        texts.push(text);
        proof {
            let next = views.take(i + 1);
            assert(next[i as int] == parts@[i as int]@);
            assert(part_texts(next) =~= part_texts(views.take(i as int)).push(
                json_string_value(next[i as int]),
            ));
            assert(option_views(texts@) =~= part_texts(next));
            assert forall|j: int, t: Seq<char>|
                #![trigger next[j], json_string(t)]
                0 <= j < next.len() && next[j] == json_string(t) implies json_string_value(next[j])
                == Some(t) by {
                if j < i {
                    assert(views.take(i as int)[j] == next[j]);
                }
            }
        }
        i += 1;
    }
    assert(views.take(parts@.len() as int) =~= views);
    texts
}

fn parse_wire(bytes: &[u8]) -> (r: Option<SessionDescription>)
    ensures
        r is Some <==> wire_description(bytes@) is Some,
        r matches Some(sd) ==> wire_description(bytes@) == Some(sd@),
        forall|p: SdpView|
            #![trigger wire_fields(p)]
            json_object(wire_fields(p)) == bytes@ && all_quoted(wire_fields(p)) ==> r is Some
                && wire_description(bytes@) == Some(p),
{
    if let Err(_) = check_json(bytes) {
        return None;
    }
    let split = split_parts(bytes);
    let texts = read_parts(&split.parts);
    proof {
        assert forall|p: SdpView|
            #![trigger wire_fields(p)]
            json_object(wire_fields(p)) == bytes@ && all_quoted(
                wire_fields(p),
            ) implies wire_description(bytes@) == Some(p) by {
            written_fields_read_back(p);
        }
    }
    if split.first == OPEN_BRACE {
        from_object(&texts)
    } else if split.first == OPEN_BRACKET {
        from_array(&texts)
    } else {
        None
    }
}

/// The texts of the object that is written for a description hold it.
proof fn written_fields_read_back(p: SdpView)
    requires
        all_quoted(wire_fields(p)),
        is_json(json_object(wire_fields(p))),
        reads_back(walk(walk_start(), json_object(wire_fields(p))).parts),
    ensures
        wire_description(json_object(wire_fields(p))) == Some(p),
{
    let fields = wire_fields(p);
    object_parts(fields);
    let parts = member_parts(fields);
    let texts = part_texts(parts);
    assert forall|i: int| 0 <= i < fields.len() implies #[trigger] texts[2 * i] == Some(fields[i].0)
        && texts[2 * i + 1] == Some(fields[i].1) by {
        assert((2 * i) / 2 == i && (2 * i) % 2 == 0);
        assert((2 * i + 1) / 2 == i && (2 * i + 1) % 2 == 1);
        assert(parts[2 * i] == json_string(fields[i].0));
        assert(parts[2 * i + 1] == json_string(fields[i].1));
    }
    written_fields_hold(p, texts);
}

proof fn written_fields_hold(p: SdpView, texts: Seq<Option<Seq<char>>>)
    requires
        texts.len() == 2 * wire_fields(p).len(),
        forall|i: int|
            0 <= i < wire_fields(p).len() ==> #[trigger] texts[2 * i] == Some(wire_fields(p)[i].0)
                && texts[2 * i + 1] == Some(wire_fields(p)[i].1),
    ensures
        object_fields(texts) == Some(p),
{
    reveal_strlit("sdp");
    reveal_strlit("ten_kb_site_loc");
    reveal_strlit("key");
    reveal_strlit("nonce");
    assert("sdp"@.len() == 3 && "ten_kb_site_loc"@.len() == 15);
    assert("key"@.len() == 3 && "nonce"@.len() == 5);
    assert("sdp"@[0] != "key"@[0]);
    reveal_with_fuel(field_in, 5);
    let n = wire_fields(p).len();
    assert(n >= 1);
    assert(texts[2 * 0int] == Some("sdp"@));
    if n >= 2 {
        assert(texts[2 * 1int] == Some(wire_fields(p)[1].0));
    }
    if n >= 3 {
        assert(texts[2 * 2int] == Some(wire_fields(p)[2].0));
    }
    if n >= 4 {
        assert(texts[2 * 3int] == Some(wire_fields(p)[3].0));
    }
    let r = object_fields(texts)->0;
    assert(r.ten_kb_site_loc =~= p.ten_kb_site_loc);
    assert(r.key =~= p.key);
    assert(r.nonce =~= p.nonce);
}

/// Descriptions with one connection string are the same, where compressing tells
/// the text of the first apart from every other, and so does quoting its fields.
proof fn same_string_same_description(v: SdpView, w: SdpView)
    requires
        connection_string(v) == connection_string(w),
        all_quoted(wire_fields(packed(v))),
        all_quoted(wire_fields(packed(w))),
        told_apart(wire_fields(packed(v))),
        forall|other: Seq<u8>| #[trigger]
            zlib_compressed(other) == zlib_compressed(encode_utf8(v.sdp)) ==> other == encode_utf8(
                v.sdp,
            ),
    ensures
        v == w,
{
    let a = wire_fields(packed(v));
    let b = wire_fields(packed(w));
    base58_texts_differ(json_object(a), json_object(b));
    objects_differ(a, b);
    let texts = Seq::new(
        2 * a.len(),
        |i: int|
            if i % 2 == 0 {
                Some(a[i / 2].0)
            } else {
                Some(a[i / 2].1)
            },
    );
    assert forall|i: int| 0 <= i < a.len() implies #[trigger] texts[2 * i] == Some(a[i].0)
        && texts[2 * i + 1] == Some(a[i].1) by {
        assert((2 * i) / 2 == i && (2 * i) % 2 == 0);
        assert((2 * i + 1) / 2 == i && (2 * i + 1) % 2 == 1);
    }
    written_fields_hold(packed(v), texts);
    written_fields_hold(packed(w), texts);
    base58_texts_differ(
        zlib_compressed(encode_utf8(v.sdp)),
        zlib_compressed(encode_utf8(w.sdp)),
    );
    encode_utf8_decode_utf8(v.sdp);
    encode_utf8_decode_utf8(w.sdp);
}

fn push_optional(fields: &mut Vec<(String, String)>, name: &str, text: &String)
    ensures
        field_views(final(fields)@) == field_views(old(fields)@) + optional_field(name@, text@),
{
    let ghost before = fields@;
    if !text.as_str().is_empty() {
        fields.push((name.to_string(), text.clone()));
    }
    assert(field_views(fields@) =~= field_views(before) + optional_field(name@, text@));
}

/// The words of the error that `String::from_utf8` gives for bytes that are no
/// UTF-8.
pub uninterp spec fn utf8_fault(bytes: Seq<u8>) -> Seq<char>;

/// `String::from_utf8`: the text whose UTF-8 the bytes are; an error exactly
/// where they are no UTF-8, in words that depend on the bytes alone.
#[verifier::external_body]
fn text_from_utf8(bytes: Vec<u8>) -> (r: Result<String, String>)
    ensures
        match r {
            Ok(s) => valid_utf8(bytes@) && s@ == decode_utf8(bytes@),
            Err(e) => !valid_utf8(bytes@) && e@ == utf8_fault(bytes@),
        },
{
    match String::from_utf8(bytes) {
        Ok(text) => Ok(text),
        Err(e) => Err(e.to_string()),
    }
}

/// Whether a key and a nonce are hexadecimal of the lengths that the cipher
/// takes.
pub open spec fn cipher_ready(key: Seq<char>, nonce: Seq<char>) -> bool {
    &&& hex_bytes(key) matches Some(k) && k.len() == KEY_LEN
    &&& hex_bytes(nonce) matches Some(n) && n.len() == NONCE_LEN
}

/// Whether a key and a nonce fit the cipher together: where both are hexadecimal
/// and the key has the right length, so must the nonce.
pub open spec fn fits_together(key: Seq<char>, nonce: Seq<char>) -> bool {
    match (hex_bytes(key), hex_bytes(nonce)) {
        (Some(k), Some(n)) => k.len() == KEY_LEN ==> n.len() == NONCE_LEN,
        _ => true,
    }
}

/// The encryption of a text under a key and a nonce, in hexadecimal.
pub open spec fn encrypted(key: Seq<char>, nonce: Seq<char>, text: Seq<char>) -> Seq<char> {
    hex_text(sealed(hex_bytes(key)->0, hex_bytes(nonce)->0, encode_utf8(text)))
}

/// Whether the cipher takes a text of this length.
pub open spec fn fits_cipher(text: Seq<char>) -> bool {
    encode_utf8(text).len() <= MAX_PLAIN_LEN
}

/// What encrypting the text of a description gives.
pub open spec fn encryption(v: SdpView) -> Result<SdpView, SdpFault> {
    match (hex_bytes(v.key), hex_bytes(v.nonce)) {
        (None, _) => Err(SdpFault::KeyHex),
        (_, None) => Err(SdpFault::NonceHex),
        (Some(key), Some(nonce)) => if key.len() != KEY_LEN {
            Err(SdpFault::KeyLength)
        } else if !fits_cipher(v.sdp) {
            Err(SdpFault::Cipher)
        } else {
            Ok(SdpView { sdp: encrypted(v.key, v.nonce, v.sdp), ..v })
        },
    }
}

/// What decrypting the text of a description gives.
pub open spec fn decryption(v: SdpView) -> Result<SdpView, SdpFault> {
    match (hex_bytes(v.key), hex_bytes(v.nonce), hex_bytes(v.sdp)) {
        (None, _, _) => Err(SdpFault::KeyHex),
        (_, None, _) => Err(SdpFault::NonceHex),
        (_, _, None) => Err(SdpFault::CiphertextHex),
        (Some(key), Some(nonce), Some(cipher)) => if key.len() != KEY_LEN {
            Err(SdpFault::KeyLength)
        } else {
            match opened(key, nonce, cipher) {
                None => Err(SdpFault::Cipher),
                Some(plain) => if valid_utf8(plain) {
                    Ok(SdpView { sdp: decode_utf8(plain), ..v })
                } else {
                    Err(SdpFault::NotText(utf8_fault(plain)))
                },
            }
        },
    }
}

impl SessionDescription {
    /// Writes the connection string of a description, which always succeeds. It
    /// is not empty, holds characters of the alphabet only and so no white space,
    /// and is that of no other description.
    pub fn encode(&self) -> (r: Result<String, SdpError>)
        ensures
            r matches Ok(s) && written(self@, s@),
            r matches Ok(s) ==> s@.len() > 0 && all_base58(s@) && crate::text::is_solid(s@),
            r matches Ok(s) ==> forall|other: SdpView| #[trigger]
                written(other, s@) ==> other == self@,
    {
        let compressed = match zlib_compress(self.sdp.as_str().as_bytes()) {
            Ok(b) => b,
            Err(_) => return Err(SdpError::Compress),
        };
        let mut fields: Vec<(String, String)> = Vec::new();
        fields.push(("sdp".to_string(), base58_encode(compressed.as_slice())));
        assert(field_views(fields@) =~= seq![("sdp"@, packed(self@).sdp)]);
        push_optional(&mut fields, "ten_kb_site_loc", &self.ten_kb_site_loc);
        push_optional(&mut fields, "key", &self.key);
        push_optional(&mut fields, "nonce", &self.nonce);
        match write_object(&fields) {
            Ok(json) => {
                let text = base58_encode(json.as_slice());
                proof {
                    base58_text_form(json@);
                    assert forall|i: int| 0 <= i < text@.len() implies !crate::text::is_white_space(
                        #[trigger] text@[i],
                    ) by {
                        assert(is_base58(text@[i]));
                    }
                    assert forall|other: SdpView| #[trigger] written(other, text@) implies other
                        == self@ by {
                        same_string_same_description(self@, other);
                    }
                }
                Ok(text)
            },
            Err(_) => Err(SdpError::Json),
        }
    }

    /// Reads a connection string. Of one that was written for a description it
    /// gives that description back.
    pub fn decode(input: &str) -> (r: Result<SessionDescription, SdpError>)
        ensures
            match r {
                Ok(sd) => read_connection_string(input@) == Ok::<SdpView, SdpFault>(sd@),
                Err(e) => read_connection_string(input@) == Err::<SdpView, SdpFault>(e@),
            },
            forall|v: SdpView| #[trigger] written(v, input@) ==> (r matches Ok(sd) && sd@ == v),
            (r is Err && r->Err_0 is OuterBase58) <==> !all_base58(input@),
    {
        let decoded = match base58_decode(input) {
            Ok(b) => b,
            Err(_) => {
                proof {
                    base58_needs_its_alphabet(input@);
                    assert forall|v: SdpView| !(#[trigger] written(v, input@)) by {
                        base58_text_form(json_object(wire_fields(packed(v))));
                    }
                }
                return Err(SdpError::OuterBase58);
            },
        };
        proof {
            base58_text_form(decoded@);
            base58_reads_back(decoded@);
            assert forall|v: SdpView| #[trigger] written(v, input@) implies decoded@ == json_object(
                wire_fields(packed(v)),
            ) by {
                base58_texts_differ(decoded@, json_object(wire_fields(packed(v))));
            }
        }
        let wire = match parse_wire(decoded.as_slice()) {
            Some(sd) => sd,
            None => return Err(SdpError::Json),
        };
        assert(forall|v: SdpView| #[trigger] written(v, input@) ==> wire@ == packed(v));
        let compressed = match base58_decode(wire.sdp.as_str()) {
            Ok(b) => b,
            Err(_) => {
                proof {
                    base58_needs_its_alphabet(wire.sdp@);
                    assert forall|v: SdpView| !(#[trigger] written(v, input@)) by {
                        base58_text_form(zlib_compressed(encode_utf8(v.sdp)));
                    }
                }
                return Err(SdpError::InnerBase58);
            },
        };
        proof {
            base58_reads_back(compressed@);
            assert forall|v: SdpView| #[trigger] written(v, input@) implies compressed@
                == zlib_compressed(encode_utf8(v.sdp)) by {
                base58_texts_differ(compressed@, zlib_compressed(encode_utf8(v.sdp)));
            }
        }
        let sdp = match zlib_decompress_text(compressed.as_slice()) {
            Ok(s) => s,
            Err(e) => return Err(SdpError::Inflate(e)),
        };
        Ok(
            SessionDescription {
                sdp,
                ten_kb_site_loc: wire.ten_kb_site_loc,
                key: wire.key,
                nonce: wire.nonce,
            },
        )
    }

    /// Takes a key and a nonce that were drawn for the cipher.
    pub fn set_keys(&mut self, key: &Vec<u8>, nonce: &Vec<u8>)
        ensures
            final(self)@ == (SdpView {
                key: hex_text(key@),
                nonce: hex_text(nonce@),
                ..old(self)@
            }),
    {
        self.key = hex_encode(key.as_slice());
        self.nonce = hex_encode(nonce.as_slice());
    }

    /// Draws a key and a nonce for the cipher.
    pub fn gen_keys(&mut self) -> (r: Result<(), SdpError>)
        ensures
            r is Ok,
            cipher_ready(final(self).key@, final(self).nonce@),
            exists|key: Seq<u8>, nonce: Seq<u8>| #![trigger hex_text(key), hex_text(nonce)]
                key.len() == KEY_LEN && nonce.len() == NONCE_LEN && final(self)@ == (SdpView {
                    key: hex_text(key),
                    nonce: hex_text(nonce),
                    ..old(self)@
                }),
    {
        let key = random_bytes(KEY_LEN);
        let nonce = random_bytes(NONCE_LEN);
        self.set_keys(&key, &nonce);
        proof {
            hex_reads_back(key@);
            hex_reads_back(nonce@);
        }
        Ok(())
    }

    /// Whether the key and the nonce fit the cipher together.
    pub open spec fn nonce_fits(self) -> bool {
        fits_together(self.key@, self.nonce@)
    }

    /// Tells whether the key and the nonce fit the cipher together.
    pub fn check_nonce(&self) -> (r: bool)
        ensures
            r == self.nonce_fits(),
            !r <==> {
                &&& hex_bytes(self.key@) matches Some(key) && key.len() == 32
                &&& hex_bytes(self.nonce@) matches Some(nonce) && nonce.len() != 12
            },
    {
        match (hex_decode(self.key.as_str()), hex_decode(self.nonce.as_str())) {
            (Ok(key), Ok(nonce)) => key.len() != KEY_LEN || nonce.len() == NONCE_LEN,
            _ => true,
        }
    }

    /// Tells whether the text can be decrypted, or is refused before the cipher
    /// is reached.
    pub fn check_ciphertext(&self) -> (r: bool)
        ensures
            r == (hex_bytes(self.sdp@) is Some ==> self.nonce_fits()),
    {
        match hex_decode(self.sdp.as_str()) {
            Ok(_) => self.check_nonce(),
            Err(_) => true,
        }
    }

    /// Encrypts the text of the description under its key and nonce. What comes
    /// out is two digits for each byte of the text and of the cipher's tag.
    pub fn encrypt(&mut self) -> (r: Result<(), SdpError>)
        requires
            old(self).nonce_fits(),
        ensures
            match r {
                Ok(_) => encryption(old(self)@) == Ok::<SdpView, SdpFault>(final(self)@)
                    && final(self).sdp@.len() == 2 * (encode_utf8(old(self).sdp@).len() + TAG_LEN),
                Err(e) => encryption(old(self)@) == Err::<SdpView, SdpFault>(e@) && *final(self)
                    == *old(self),
            },
            r is Ok <==> cipher_ready(old(self).key@, old(self).nonce@) && encode_utf8(
                old(self).sdp@,
            ).len() <= MAX_PLAIN_LEN,
            r is Ok ==> final(self).sdp@ == hex_text(
                sealed(
                    hex_bytes(old(self).key@)->0,
                    hex_bytes(old(self).nonce@)->0,
                    encode_utf8(old(self).sdp@),
                ),
            ),
            final(self).key@ == old(self).key@,
            final(self).nonce@ == old(self).nonce@,
            final(self).ten_kb_site_loc@ == old(self).ten_kb_site_loc@,
            (r is Err && r->Err_0 is KeyHex) <==> hex_bytes(old(self).key@) is None,
            (r is Err && r->Err_0 is NonceHex) <==> hex_bytes(old(self).key@) is Some && hex_bytes(
                old(self).nonce@,
            ) is None,
    {
        let key = match hex_decode(self.key.as_str()) {
            Ok(b) => b,
            Err(_) => return Err(SdpError::KeyHex),
        };
        let nonce = match hex_decode(self.nonce.as_str()) {
            Ok(b) => b,
            Err(_) => return Err(SdpError::NonceHex),
        };
        let outcome = aes_encrypt(
            key.as_slice(),
            nonce.as_slice(),
            self.sdp.as_str().as_bytes(),
        );
        match outcome {
            Err(_) => Err(SdpError::KeyLength),
            Ok(Err(_)) => Err(SdpError::Cipher),
            Ok(Ok(ciphertext)) => {
                self.sdp = hex_encode(ciphertext.as_slice());
                Ok(())
            },
        }
    }

    /// Decrypts the text of the description under its key and nonce. What was
    /// encrypted under them becomes the text that it was.
    pub fn decrypt(&mut self) -> (r: Result<(), SdpError>)
        requires
            hex_bytes(old(self).sdp@) is Some ==> old(self).nonce_fits(),
        ensures
            match r {
                Ok(_) => decryption(old(self)@) == Ok::<SdpView, SdpFault>(final(self)@),
                Err(e) => decryption(old(self)@) == Err::<SdpView, SdpFault>(e@) && *final(self)
                    == *old(self),
            },
            forall|text: Seq<char>|
                cipher_ready(old(self).key@, old(self).nonce@) && fits_cipher(text)
                    && old(self).sdp@ == #[trigger] encrypted(
                    old(self).key@,
                    old(self).nonce@,
                    text,
                ) ==> r is Ok && final(self).sdp@ == text,
            r is Ok ==> cipher_ready(old(self).key@, old(self).nonce@) && opened(
                hex_bytes(old(self).key@)->0,
                hex_bytes(old(self).nonce@)->0,
                hex_bytes(old(self).sdp@)->0,
            ) == Some(encode_utf8(final(self).sdp@)),
            (r is Err && r->Err_0 is KeyHex) <==> hex_bytes(old(self).key@) is None,
            (r is Err && r->Err_0 is NonceHex) <==> hex_bytes(old(self).key@) is Some && hex_bytes(
                old(self).nonce@,
            ) is None,
            (r is Err && r->Err_0 is CiphertextHex) <==> hex_bytes(old(self).key@) is Some
                && hex_bytes(old(self).nonce@) is Some && hex_bytes(old(self).sdp@) is None,
            cipher_ready(old(self).key@, old(self).nonce@) && hex_bytes(old(self).sdp@) is Some ==> (
            (r is Err && r->Err_0 is Cipher) <==> opened(
                hex_bytes(old(self).key@)->0,
                hex_bytes(old(self).nonce@)->0,
                hex_bytes(old(self).sdp@)->0,
            ) is None),
            final(self).key@ == old(self).key@,
            final(self).nonce@ == old(self).nonce@,
            final(self).ten_kb_site_loc@ == old(self).ten_kb_site_loc@,
    {
        let key = match hex_decode(self.key.as_str()) {
            Ok(b) => b,
            Err(_) => return Err(SdpError::KeyHex),
        };
        let nonce = match hex_decode(self.nonce.as_str()) {
            Ok(b) => b,
            Err(_) => return Err(SdpError::NonceHex),
        };
        proof {
            assert forall|text: Seq<char>|
                self.sdp@ == #[trigger] encrypted(self.key@, self.nonce@, text) implies hex_bytes(
                self.sdp@,
            ) == Some(sealed(key@, nonce@, encode_utf8(text))) && decode_utf8(encode_utf8(text))
                == text && valid_utf8(encode_utf8(text)) by {
                hex_reads_back(sealed(key@, nonce@, encode_utf8(text)));
                encode_utf8_decode_utf8(text);
                encode_utf8_valid_utf8(text);
            }
        }
        let ciphertext = match hex_decode(self.sdp.as_str()) {
            Ok(b) => b,
            Err(_) => return Err(SdpError::CiphertextHex),
        };
        let outcome = aes_decrypt(key.as_slice(), nonce.as_slice(), ciphertext.as_slice());
        match outcome {
            Err(_) => Err(SdpError::KeyLength),
            Ok(Err(_)) => Err(SdpError::Cipher),
            Ok(Ok(plain)) => match text_from_utf8(plain) {
                Ok(text) => {
                    proof {
                        decode_utf8_encode_utf8(plain@);
                    }
                    self.sdp = text;
                    Ok(())
                },
                Err(e) => Err(SdpError::NotText(e)),
            },
        }
    }
}

} // verus!
