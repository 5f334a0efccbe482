//! Texts as sequences of characters.

use vstd::prelude::*;
use vstd::string::*;
use vstd::utf8::*;

verus! {

/// Specification of `String::push`: the character goes to the end.
pub assume_specification[ String::push ](s: &mut String, c: char)
    ensures
        final(s)@ == old(s)@.push(c),
;

/// Whether two texts hold the same characters.
pub fn same_text(a: &str, b: &str) -> (r: bool)
    ensures
        r == (a@ == b@),
{
    let x = a.as_bytes();
    let y = b.as_bytes();
    proof {
        encode_utf8_decode_utf8(a@);
        encode_utf8_decode_utf8(b@);
    }
    if x.len() != y.len() {
        return false;
    }
    let mut i: usize = 0;
    while i < x.len()
        invariant
            i <= x@.len(),
            x@.len() == y@.len(),
            x@ == encode_utf8(a@),
            y@ == encode_utf8(b@),
            forall|j: int| 0 <= j < i ==> x@[j] == y@[j],
        decreases x@.len() - i,
    {
        if x[i] != y[i] {
            return false;
        }
        i += 1;
    }
    assert(x@ =~= y@);
    true
}

/// The characters of a text.
pub fn to_chars(s: &str) -> (r: Vec<char>)
    ensures
        r@ == s@,
{
    let mut v: Vec<char> = Vec::new();
    for c in it: s.chars()
        invariant
            it.seq() == s@,
            v@ == s@.take(it.index() as int),
    {
        v.push(c);
    }
    assert(s@.take(s@.len() as int) == s@);
    v
}

/// The text of the characters from `from` up to `to`.
pub fn from_chars(v: &Vec<char>, from: usize, to: usize) -> (r: String)
    requires
        from <= to <= v@.len(),
    ensures
        r@ == v@.subrange(from as int, to as int),
{
    let mut s = String::new();
    let mut i: usize = from;
    while i < to
        invariant
            from <= i <= to <= v@.len(),
            s@ == v@.subrange(from as int, i as int),
        decreases to - i,
    {
        s.push(v[i]);
        i += 1;
    }
    s
}

/// A copy of a list of texts.
pub fn copy_texts(v: &Vec<String>) -> (r: Vec<String>)
    ensures
        r@ == v@,
{
    v.clone()
}

/// A copy of a text that may be missing.
pub fn copy_option(text: &Option<String>) -> (r: Option<String>)
    ensures
        r == *text,
{
    match text {
        Some(s) => Some(s.clone()),
        None => None,
    }
}

/// The characters of each text of a list.
pub open spec fn views(v: Seq<String>) -> Seq<Seq<char>> {
    v.map_values(|s: String| s@)
}

/// The texts of `parts` one after the other, with `sep` between neighbours.
pub open spec fn joined(parts: Seq<Seq<char>>, sep: Seq<char>) -> Seq<char>
    decreases parts.len(),
{
    if parts.len() == 0 {
        Seq::empty()
    } else if parts.len() == 1 {
        parts[0]
    } else {
        joined(parts.drop_last(), sep) + sep + parts.last()
    }
}

/// Joining one text gives it as it is, and joining more gives what joining the
/// first of them gives, the separator, and what joining the others gives.
pub proof fn joined_falls_apart(front: Seq<Seq<char>>, back: Seq<Seq<char>>, sep: Seq<char>)
    requires
        front.len() > 0,
        back.len() > 0,
    ensures
        front.len() == 1 ==> joined(front, sep) == front[0],
        joined(front + back, sep) == joined(front, sep) + sep + joined(back, sep),
    decreases back.len(),
{
    let all = front + back;
    assert(all.last() == back.last());
    assert(all.drop_last() =~= front + back.drop_last());
    if back.len() == 1 {
        assert(front + back.drop_last() =~= front);
        assert(joined(back, sep) == back[0]);
    } else {
        joined_falls_apart(front, back.drop_last(), sep);
        let f = joined(front, sep);
        let b = joined(back.drop_last(), sep);
        assert(f + sep + b + sep + back.last() =~= f + sep + (b + sep + back.last()));
    }
}

/// Joins texts with a separator.
pub fn join(parts: &Vec<String>, sep: &str) -> (r: String)
    ensures
        r@ == joined(views(parts@), sep@),
{
    let mut s = String::new();
    let mut i: usize = 0;
    while i < parts.len()
        invariant
            i <= parts@.len(),
            s@ == joined(views(parts@).take(i as int), sep@),
        decreases parts@.len() - i,
    {
        let ghost next = views(parts@).take(i + 1);
        assert(next.drop_last() =~= views(parts@).take(i as int));
        assert(next.last() == parts@[i as int]@);
        if i > 0 {
            s.append(sep);
        }
        s.append(parts[i].as_str());
        i += 1;
    }
    assert(views(parts@).take(parts@.len() as int) =~= views(parts@));
    s
}

/// Whether `prefix` stands in `s` at position `i`.
pub open spec fn stands_at(s: Seq<char>, prefix: Seq<char>, i: int) -> bool {
    &&& 0 <= i
    &&& i + prefix.len() <= s.len()
    &&& s.subrange(i, i + prefix.len()) == prefix
}

/// Whether a line of `s` starts with `prefix`. A line starts at the beginning
/// of the text and behind each line feed.
pub open spec fn some_line_starts_with(s: Seq<char>, prefix: Seq<char>) -> bool {
    exists|i: int| #[trigger] stands_at(s, prefix, i) && (i == 0 || s[i - 1] == '\n')
}

fn stands_at_index(s: &Vec<char>, prefix: &Vec<char>, i: usize) -> (r: bool)
    requires
        i <= s@.len(),
    ensures
        r == stands_at(s@, prefix@, i as int),
{
    if s.len() - i < prefix.len() {
        return false;
    }
    let n: usize = s.len();
    let mut j: usize = 0;
    while j < prefix.len()
        invariant
            n == s@.len(),
            i + prefix@.len() <= s@.len(),
            j <= prefix@.len(),
            forall|k: int| 0 <= k < j ==> s@[i + k] == prefix@[k],
        decreases prefix@.len() - j,
    {
        if s[i + j] != prefix[j] {
            assert(s@.subrange(i as int, i + prefix@.len())[j as int] != prefix@[j as int]);
            return false;
        }
        j += 1;
    }
    assert(s@.subrange(i as int, i + prefix@.len()) =~= prefix@);
    true
}

/// Whether a text starts with another.
pub fn starts_with(s: &str, prefix: &str) -> (r: bool)
    ensures
        r == stands_at(s@, prefix@, 0),
{
    stands_at_index(&to_chars(s), &to_chars(prefix), 0)
}

/// Whether a line of a text starts with `prefix`, which holds at least one
/// character.
pub fn has_line_with_prefix(s: &str, prefix: &str) -> (r: bool)
    requires
        prefix@.len() > 0,
    ensures
        r == some_line_starts_with(s@, prefix@),
{
    let text = to_chars(s);
    let head = to_chars(prefix);
    let mut i: usize = 0;
    while i < text.len()
        invariant
            i <= text@.len(),
            text@ == s@,
            head@ == prefix@,
            forall|j: int|
                #![trigger stands_at(s@, prefix@, j)]
                0 <= j < i && (j == 0 || s@[j - 1] == '\n') ==> !stands_at(s@, prefix@, j),
        decreases text@.len() - i,
    {
        if (i == 0 || text[i - 1] == '\n') && stands_at_index(&text, &head, i) {
            assert(stands_at(s@, prefix@, i as int));
            return true;
        }
        i += 1;
    }
    false
}

/// The characters that Unicode counts as white space.
pub open spec fn is_white_space(c: char) -> bool {
    ||| '\t' <= c <= '\r'
    ||| c == ' '
    ||| c == '\u{85}'
    ||| c == '\u{a0}'
    ||| c == '\u{1680}'
    ||| '\u{2000}' <= c <= '\u{200a}'
    ||| c == '\u{2028}'
    ||| c == '\u{2029}'
    ||| c == '\u{202f}'
    ||| c == '\u{205f}'
    ||| c == '\u{3000}'
}

fn white_space(c: char) -> (r: bool)
    ensures
        r == is_white_space(c),
{
    ('\t' <= c && c <= '\r') || c == ' ' || c == '\u{85}' || c == '\u{a0}' || c == '\u{1680}' || (
    '\u{2000}' <= c && c <= '\u{200a}') || c == '\u{2028}' || c == '\u{2029}' || c == '\u{202f}'
        || c == '\u{205f}' || c == '\u{3000}'
}

/// A text without the white space at its start.
pub open spec fn trimmed_start(s: Seq<char>) -> Seq<char>
    decreases s.len(),
{
    if s.len() > 0 && is_white_space(s[0]) {
        trimmed_start(s.skip(1))
    } else {
        s
    }
}

/// A text without the white space at its end.
pub open spec fn trimmed_end(s: Seq<char>) -> Seq<char>
    decreases s.len(),
{
    if s.len() > 0 && is_white_space(s.last()) {
        trimmed_end(s.drop_last())
    } else {
        s
    }
}

/// A text without the white space at both ends.
pub open spec fn trimmed(s: Seq<char>) -> Seq<char> {
    trimmed_end(trimmed_start(s))
}

/// Whether a text is made of white space.
pub open spec fn is_blank(s: Seq<char>) -> bool {
    forall|i: int| 0 <= i < s.len() ==> is_white_space(#[trigger] s[i])
}

/// Whether a text holds no white space.
pub open spec fn is_solid(s: Seq<char>) -> bool {
    forall|i: int| 0 <= i < s.len() ==> !is_white_space(#[trigger] s[i])
}

proof fn trimmed_start_of_blank(before: Seq<char>, s: Seq<char>)
    requires
        is_blank(before),
    ensures
        trimmed_start(before + s) == trimmed_start(s),
    decreases before.len(),
{
    if before.len() > 0 {
        assert((before + s).skip(1) =~= before.skip(1) + s);
        assert((before + s)[0] == before[0]);
        assert forall|i: int| 0 <= i < before.skip(1).len() implies is_white_space(
            #[trigger] before.skip(1)[i],
        ) by {
            assert(before[i + 1] == before.skip(1)[i]);
        }
        trimmed_start_of_blank(before.skip(1), s);
    } else {
        assert(before + s =~= s);
    }
}

proof fn trimmed_end_of_blank(s: Seq<char>, after: Seq<char>)
    requires
        is_blank(after),
    ensures
        trimmed_end(s + after) == trimmed_end(s),
    decreases after.len(),
{
    if after.len() > 0 {
        assert((s + after).drop_last() =~= s + after.drop_last());
        assert((s + after).last() == after.last());
        trimmed_end_of_blank(s, after.drop_last());
    } else {
        assert(s + after =~= s);
    }
}

/// Whatever starts and ends with something else than white space, or is empty, is
/// what is left of a text when it stands there with nothing but white space around
/// it.
pub proof fn trimmed_is_the_middle(before: Seq<char>, s: Seq<char>, after: Seq<char>)
    requires
        is_blank(before),
        is_blank(after),
        s.len() > 0 ==> !is_white_space(s[0]) && !is_white_space(s.last()),
    ensures
        trimmed(before + s + after) == s,
{
    assert(before + s + after =~= before + (s + after));
    trimmed_start_of_blank(before, s + after);
    if s.len() > 0 {
        assert((s + after)[0] == s[0]);
        assert(trimmed_start(s + after) == s + after);
        trimmed_end_of_blank(s, after);
        assert(trimmed_end(s) == s);
    } else {
        assert(s + after =~= after + s);
        trimmed_start_of_blank(after, s);
        assert(trimmed_start(s) == s);
        assert(trimmed_end(s) == s);
    }
}

/// Nothing is left of a text exactly where it is made of white space.
pub proof fn blank_is_trimmed_away(s: Seq<char>)
    ensures
        trimmed(s).len() == 0 <==> is_blank(s),
{
    let t = trimmed_start(s);
    let e = trimmed_end(t);
    start_is_blank(s);
    end_is_blank(t);
    let n = s.len() - t.len();
    if is_blank(s) {
        if t.len() > 0 {
            assert(t[0] == s[n]);
        }
    }
    if e.len() == 0 {
        assert forall|i: int| 0 <= i < s.len() implies is_white_space(#[trigger] s[i]) by {
            if i < n {
                assert(s.take(n)[i] == s[i]);
            } else {
                assert(t.skip(0)[i - n] == s[i]);
            }
        }
    }
}

proof fn start_is_blank(s: Seq<char>)
    ensures
        trimmed_start(s).len() <= s.len(),
        is_blank(s.take(s.len() - trimmed_start(s).len())),
        trimmed_start(s) == s.skip(s.len() - trimmed_start(s).len()),
        trimmed_start(s).len() > 0 ==> !is_white_space(trimmed_start(s)[0]),
    decreases s.len(),
{
    if s.len() > 0 && is_white_space(s[0]) {
        start_is_blank(s.skip(1));
        let n = s.len() - trimmed_start(s).len();
        assert(s.take(n) =~= seq![s[0]] + s.skip(1).take(n - 1));
        assert(s.skip(n) =~= s.skip(1).skip(n - 1));
    } else {
        assert(s.skip(0) =~= s);
    }
}

proof fn end_is_blank(s: Seq<char>)
    ensures
        trimmed_end(s).len() <= s.len(),
        is_blank(s.skip(trimmed_end(s).len() as int)),
    decreases s.len(),
{
    if s.len() > 0 && is_white_space(s.last()) {
        end_is_blank(s.drop_last());
        let n = trimmed_end(s).len() as int;
        assert(s.skip(n) =~= s.drop_last().skip(n).push(s.last()));
    } else {
        assert(s.skip(s.len() as int) =~= Seq::<char>::empty());
    }
}

/// White space is what Unicode counts as such, by the numbers of the characters.
pub proof fn white_space_is_of_unicode(c: char)
    ensures
        is_white_space(c) <==> {
            let n = c as int;
            ||| 9 <= n <= 13
            ||| n == 32
            ||| n == 133
            ||| n == 160
            ||| n == 5760
            ||| 8192 <= n <= 8202
            ||| n == 8232
            ||| n == 8233
            ||| n == 8239
            ||| n == 8287
            ||| n == 12288
        },
{
}

/// A text without white space is what is left when the white space around it is
/// taken off.
pub proof fn trimmed_keeps_solid(before: Seq<char>, s: Seq<char>, after: Seq<char>)
    requires
        is_blank(before),
        is_solid(s),
        is_blank(after),
    ensures
        trimmed(before + s + after) == s,
{
    trimmed_is_the_middle(before, s, after);
}

/// Takes the white space off both ends of a text.
pub fn trim(s: &str) -> (r: String)
    ensures
        r@ == trimmed(s@),
        exists|i: int, j: int|
            0 <= i <= j <= s@.len() && r@ == #[trigger] s@.subrange(i, j) && is_blank(s@.take(i))
                && is_blank(s@.skip(j)) && (i < j ==> !is_white_space(s@[i]) && !is_white_space(
                s@[j - 1],
            )),
{
    let v = to_chars(s);
    let mut i: usize = 0;
    assert(s@.skip(0) =~= s@);
    while i < v.len() && white_space(v[i])
        invariant
            i <= v@.len(),
            v@ == s@,
            trimmed_start(s@.skip(i as int)) == trimmed_start(s@),
            is_blank(s@.take(i as int)),
        decreases v@.len() - i,
    {
        assert(s@.skip(i as int).skip(1) =~= s@.skip(i + 1));
        assert(s@.take(i + 1) =~= s@.take(i as int).push(s@[i as int]));
        i += 1;
    }
    let mut j: usize = v.len();
    assert(s@.skip(i as int) =~= s@.subrange(i as int, j as int));
    while j > i && white_space(v[j - 1])
        invariant
            i <= j <= v@.len(),
            v@ == s@,
            trimmed_end(s@.subrange(i as int, j as int)) == trimmed(s@),
            i < v@.len() ==> !is_white_space(s@[i as int]),
            is_blank(s@.skip(j as int)),
        decreases j,
    {
        assert(s@.subrange(i as int, j as int).drop_last() =~= s@.subrange(i as int, j - 1));
        assert(s@.skip(j - 1) =~= seq![s@[j - 1]] + s@.skip(j as int));
        j -= 1;
    }
    assert(s@.subrange(i as int, j as int) == trimmed(s@));
    from_chars(&v, i, j)
}

/// The decimal digits of a number.
pub open spec fn decimal(n: nat) -> Seq<char>
    decreases n,
{
    if n < 10 {
        seq![(48 + n) as char]
    } else {
        decimal(n / 10).push((48 + n % 10) as char)
    }
}

/// The number that decimal digits spell, the highest first.
pub open spec fn digits_number(digits: Seq<char>) -> int
    decreases digits.len(),
{
    if digits.len() == 0 {
        0
    } else {
        10 * digits_number(digits.drop_last()) + (digits.last() as int - '0' as int)
    }
}

/// A number is written with digits that spell it, and with no zero in front.
pub proof fn decimal_spells_the_number(n: nat)
    ensures
        digits_number(decimal(n)) == n,
        decimal(n).len() > 0,
        forall|i: int| 0 <= i < decimal(n).len() ==> '0' <= #[trigger] decimal(n)[i] <= '9',
        decimal(n)[0] == '0' ==> n == 0,
        decimal(n).len() > 1 ==> decimal(n)[0] != '0',
    decreases n,
{
    if n < 10 {
        let d = (48 + n) as char;
        assert(d as int == 48 + n);
        assert(decimal(n).drop_last() =~= Seq::<char>::empty());
        assert(digits_number(Seq::<char>::empty()) == 0);
        assert(decimal(n).last() == d);
    } else {
        decimal_spells_the_number(n / 10);
        let d = (48 + n % 10) as char;
        assert(d as int == 48 + n % 10);
        assert(decimal(n).drop_last() =~= decimal(n / 10));
        assert(decimal(n).last() == d);
    }
}

fn digit(n: u64) -> (r: char)
    requires
        n < 10,
    ensures
        r == (48 + n) as char,
{
    if n == 0 {
        '0'
    } else if n == 1 {
        '1'
    } else if n == 2 {
        '2'
    } else if n == 3 {
        '3'
    } else if n == 4 {
        '4'
    } else if n == 5 {
        '5'
    } else if n == 6 {
        '6'
    } else if n == 7 {
        '7'
    } else if n == 8 {
        '8'
    } else {
        '9'
    }
}

/// Writes a number in decimal digits.
pub fn decimal_text(n: u64) -> (r: String)
    ensures
        r@ == decimal(n as nat),
        digits_number(r@) == n,
    decreases n,
{
    proof {
        decimal_spells_the_number(n as nat);
    }
    if n < 10 {
        let mut s = String::new();
        s.push(digit(n));
        assert(s@ =~= seq![(48 + n) as char]);
        s
    } else {
        let mut s = decimal_text(n / 10);
        s.push(digit(n % 10));
        s
    }
}

/// A character with an ASCII capital replaced by its small letter.
pub open spec fn ascii_lower(c: char) -> char {
    if 'A' <= c <= 'Z' {
        (c as int + 32) as char
    } else {
        c
    }
}

/// What `str::to_lowercase` gives for a text.
pub uninterp spec fn lower_case(s: Seq<char>) -> Seq<char>;

/// `str::to_lowercase`. The result is a function of the text alone, and of an
/// ASCII text it changes the capitals only.
#[verifier::external_body]
pub(crate) fn to_lower_case(s: &str) -> (r: String)
    ensures
        r@ == lower_case(s@),
        is_ascii_chars(s@) ==> r@ == s@.map_values(|c: char| ascii_lower(c)),
{
    s.to_lowercase()
}

} // verus!
