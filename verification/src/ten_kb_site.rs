//! The relay that carries an answer back to a host whose peer cannot.

use crate::random::random_below;
use crate::text::to_chars;
use vstd::prelude::*;
use vstd::string::*;

verus! {

/// Where files are put.
pub const TEN_KB_UP_URL: &'static str = "https://up.10kb.site/";

/// Where files are read.
pub const TEN_KB_URL: &'static str = "https://www.10kb.site/";

/// How long to wait before a file that is not there is asked for again, in
/// milliseconds.
pub const POLL_INTERVAL_MS: u64 = 300;

/// The characters that name a file.
pub const FILE_NAME_CHARS: &'static str =
    "0123456789abcdefghijklmnopqrstuvwxyzABCDEFGHIJKLMNOPQRSTUVWXYZ";

/// The address that a file is put at.
pub fn upload_url(path: &str) -> (r: String)
    ensures
        r@ == TEN_KB_UP_URL@ + path@,
        r@ == "https://up.10kb.site/"@ + path@,
{
    let mut s = TEN_KB_UP_URL.to_string();
    s.append(path);
    s
}

/// The address that a file is read at.
pub fn download_url(path: &str) -> (r: String)
    ensures
        r@ == TEN_KB_URL@ + path@,
        r@ == "https://www.10kb.site/"@ + path@,
{
    let mut s = TEN_KB_URL.to_string();
    s.append(path);
    s
}

/// Decides whether a file was put, by the status of the reply and its body.
pub fn create_10kb_file(status: u16, body: &str) -> (r: Result<(), String>)
    ensures
        match r {
            Ok(_) => status == 201,
            Err(e) => status != 201 && e@ == "10kb.site error: "@ + body@,
        },
        r is Ok <==> status == 201,
{
    if status != 201 {
        let mut s = "10kb.site error: ".to_string();
        s.append(body);
        return Err(s);
    }
    Ok(())
}

/// What follows when a file was asked for.
#[derive(Debug, Clone)]
pub enum PollStep {
    /// The file is there.
    Done(String),
    /// It is not there yet.
    Wait,
    /// It cannot be had.
    Failed(String),
}

/// Decides what follows when a file was asked for, by the status of the reply,
/// how that status is written, and the body.
pub fn poll_for_response(status: u16, status_text: &str, body: String) -> (r: PollStep)
    ensures
        match r {
            PollStep::Done(s) => status == 200 && s == body,
            PollStep::Wait => status == 404,
            PollStep::Failed(e) => {
                &&& status != 200
                &&& status != 404
                &&& e@ == "Unexpected 10kb.site status: "@ + status_text@
            },
        },
        r is Done <==> status == 200,
        r is Wait <==> status == 404,
{
    if status == 200 {
        return PollStep::Done(body);
    }
    if status == 404 {
        return PollStep::Wait;
    }
    let mut s = "Unexpected 10kb.site status: ".to_string();
    s.append(status_text);
    PollStep::Failed(s)
}

/// Whether a text is made of `n` of the characters that name a file.
pub open spec fn is_file_name(name: Seq<char>, n: nat) -> bool {
    &&& name.len() == n
    &&& forall|i: int| 0 <= i < n ==> FILE_NAME_CHARS@.contains(#[trigger] name[i])
}

/// How many characters name a file.
pub const FILE_NAME_CHAR_COUNT: usize = 62;

/// The file name that some drawn numbers stand for, each for a character.
pub open spec fn file_name_of(drawn: Seq<usize>) -> Seq<char> {
    drawn.map_values(|k: usize| FILE_NAME_CHARS@[k as int])
}

/// Writes the file name that some drawn numbers stand for.
pub fn drawn_file_name(drawn: &Vec<usize>) -> (r: String)
    requires
        forall|i: int| 0 <= i < drawn@.len() ==> #[trigger] drawn@[i] < FILE_NAME_CHAR_COUNT,
    ensures
        r@ == file_name_of(drawn@),
        is_file_name(r@, drawn@.len()),
{
    let chars = to_chars(FILE_NAME_CHARS);
    proof {
        reveal_strlit("0123456789abcdefghijklmnopqrstuvwxyzABCDEFGHIJKLMNOPQRSTUVWXYZ");
    }
    assert(chars@.len() == FILE_NAME_CHAR_COUNT);
    let mut s = String::new();
    let mut i: usize = 0;
    while i < drawn.len()
        invariant
            i <= drawn@.len(),
            forall|j: int| 0 <= j < drawn@.len() ==> #[trigger] drawn@[j] < FILE_NAME_CHAR_COUNT,
            chars@.len() == FILE_NAME_CHAR_COUNT,
            chars@ == FILE_NAME_CHARS@,
            s@ == file_name_of(drawn@).take(i as int),
            is_file_name(s@, i as nat),
        decreases drawn@.len() - i,
    {
        let k: usize = drawn[i];
        assert(k < FILE_NAME_CHAR_COUNT);
        assert(FILE_NAME_CHARS@[k as int] == chars@[k as int]);
        s.push(chars[k]);
        assert(s@ =~= file_name_of(drawn@).take(i + 1));
        i += 1;
    }
    assert(s@ =~= file_name_of(drawn@));
    s
}

/// File names are made of ASCII letters and digits.
pub proof fn file_names_are_alphanumeric(name: Seq<char>, n: nat)
    requires
        is_file_name(name, n),
    ensures
        name.len() == n,
        forall|i: int| 0 <= i < n ==> crate::random::is_alphanumeric(#[trigger] name[i]),
{
    reveal_strlit("0123456789abcdefghijklmnopqrstuvwxyzABCDEFGHIJKLMNOPQRSTUVWXYZ");
    assert forall|i: int| 0 <= i < n implies crate::random::is_alphanumeric(
        #[trigger] name[i],
    ) by {
        let k = FILE_NAME_CHARS@.index_of(name[i]);
        assert(FILE_NAME_CHARS@.contains(name[i]));
        assert(FILE_NAME_CHARS@[k] == name[i]);
    }
}

/// A file name of `n` characters that chance picks.
pub fn rand_seq(n: usize) -> (r: String)
    ensures
        is_file_name(r@, n as nat),
        r@.len() == n,
        forall|i: int| 0 <= i < n ==> crate::random::is_alphanumeric(#[trigger] r@[i]),
{
    let mut drawn: Vec<usize> = Vec::new();
    let mut i: usize = 0;
    while i < n
        invariant
            i <= n,
            drawn@.len() == i,
            forall|j: int| 0 <= j < i ==> #[trigger] drawn@[j] < FILE_NAME_CHAR_COUNT,
        decreases n - i,
    {
        drawn.push(random_below(FILE_NAME_CHAR_COUNT));
        i += 1;
    }
    let name = drawn_file_name(&drawn);
    proof {
        file_names_are_alphanumeric(name@, n as nat);
    }
    name
}

} // verus!
