//! The messages that the two sides of a terminal send each other.

use crate::json::json_string;
use crate::text::{decimal_text, same_text, starts_with};
use vstd::prelude::*;
use vstd::string::*;
use vstd::utf8::*;

verus! {

/// What `String::from_utf8_lossy` makes of some bytes.
pub uninterp spec fn lossy_utf8(bytes: Seq<u8>) -> Seq<char>;

/// `String::from_utf8_lossy`: a function of the bytes alone. Bytes that are
/// UTF-8 are read as such.
#[verifier::external_body]
fn lossy_text(bytes: &[u8]) -> (r: String)
    ensures
        r@ == lossy_utf8(bytes@),
        valid_utf8(bytes@) ==> r@ == decode_utf8(bytes@),
{
    String::from_utf8_lossy(bytes).to_string()
}

/// An element of a JSON array, as far as a message goes.
#[derive(Debug, Clone)]
pub enum JsonItem {
    Text(String),
    /// A whole number that is not negative and fits in 64 bits.
    Whole(u64),
    Other,
}

/// The same with the characters of a text.
#[verifier::ext_equal]
pub ghost enum ItemView {
    Text(Seq<char>),
    Whole(u64),
    Other,
}

impl View for JsonItem {
    type V = ItemView;

    open spec fn view(&self) -> ItemView {
        match self {
            JsonItem::Text(s) => ItemView::Text(s@),
            JsonItem::Whole(n) => ItemView::Whole(*n),
            JsonItem::Other => ItemView::Other,
        }
    }
}

/// The views of the elements of an array.
pub open spec fn item_views(items: Seq<JsonItem>) -> Seq<ItemView> {
    items.map_values(|item: JsonItem| item@)
}

/// What `serde_json::from_str` reads in a text: the elements where it is an
/// array, nothing where it is other JSON, and the words of the error where it is
/// no JSON.
pub uninterp spec fn json_array(text: Seq<char>) -> Result<Option<Seq<ItemView>>, Seq<char>>;

/// The message that tells the size of a terminal.
pub open spec fn size_text(rows: u16, cols: u16) -> Seq<char> {
    "[\"set_size\","@ + crate::text::decimal(rows as nat) + ","@ + crate::text::decimal(
        cols as nat,
    ) + "]"@
}

/// The elements of the message that tells the size of a terminal.
pub open spec fn size_items(rows: u16, cols: u16) -> Seq<ItemView> {
    seq![
        ItemView::Text("set_size"@),
        ItemView::Whole(rows as u64),
        ItemView::Whole(cols as u64),
    ]
}

/// The message that hands over a text to type.
pub open spec fn stdin_text(typed: Seq<char>) -> Seq<char> {
    "[\"stdin\","@ + decode_utf8(json_string(typed)) + "]"@
}

/// The elements of the message that hands over a text to type.
pub open spec fn stdin_items(typed: Seq<char>) -> Seq<ItemView> {
    seq![ItemView::Text("stdin"@), ItemView::Text(typed)]
}

/// `serde_json::from_str` into a `Value`: the elements where the text is an
/// array, and the words of the error where it is no JSON. A text in quotation
/// marks with small letters and `_` in it is that text, the JSON string that
/// `serde_json` writes for a text is that text, and the digits of a number are
/// that number, as in the two messages about a size and about what was typed.
#[verifier::external_body]
fn read_array(text: &str) -> (r: Result<Option<Vec<JsonItem>>, String>)
    ensures
        match r {
            Err(e) => json_array(text@) == Err::<Option<Seq<ItemView>>, _>(e@),
            Ok(None) => json_array(text@) == Ok::<_, Seq<char>>(None::<Seq<ItemView>>),
            Ok(Some(items)) => json_array(text@) == Ok::<_, Seq<char>>(
                Some(item_views(items@)),
            ),
        },
        (r is Err || (r matches Ok(None))) ==> forall|rows: u16, cols: u16|
            text@ != #[trigger] size_text(rows, cols),
        (r is Err || (r matches Ok(None))) ==> forall|typed: Seq<char>|
            text@ != #[trigger] stdin_text(typed),
        r matches Ok(Some(items)) ==> forall|rows: u16, cols: u16|
            text@ == #[trigger] size_text(rows, cols) ==> item_views(items@) == size_items(
                rows,
                cols,
            ),
        r matches Ok(Some(items)) ==> forall|typed: Seq<char>|
            text@ == #[trigger] stdin_text(typed) ==> item_views(items@) == stdin_items(typed),
{
    let values = match serde_json::from_str::<serde_json::Value>(text) {
        Err(e) => return Err(e.to_string()),
        Ok(serde_json::Value::Array(values)) => values,
        Ok(_) => return Ok(None),
    };
    let item = |v: serde_json::Value| match v {
        serde_json::Value::String(s) => JsonItem::Text(s),
        serde_json::Value::Number(n) => n.as_u64().map_or(JsonItem::Other, JsonItem::Whole),
        _ => JsonItem::Other,
    };
    Ok(Some(values.into_iter().map(item).collect()))
}

/// What the host does about a message.
#[derive(Debug, Clone)]
pub enum HostAction {
    /// The session is over.
    Quit,
    /// These bytes are typed into the terminal.
    Write(Vec<u8>),
    /// The terminal gets this size.
    Resize { rows: u16, cols: u16 },
    Ignore,
}

/// The same with the bytes of a write.
#[verifier::ext_equal]
pub ghost enum HostView {
    Quit,
    Write(Seq<u8>),
    Resize { rows: u16, cols: u16 },
    Ignore,
}

impl View for HostAction {
    type V = HostView;

    open spec fn view(&self) -> HostView {
        match self {
            HostAction::Quit => HostView::Quit,
            HostAction::Write(bytes) => HostView::Write(bytes@),
            HostAction::Resize { rows, cols } => HostView::Resize { rows: *rows, cols: *cols },
            HostAction::Ignore => HostView::Ignore,
        }
    }
}

/// A message that the host cannot read.
#[derive(Debug, Clone, PartialEq)]
pub enum MessageError {
    /// It is no JSON, and why.
    NotJson(String),
}

impl MessageError {
    /// What the error says.
    pub open spec fn spec_message(self) -> Seq<char> {
        match self {
            MessageError::NotJson(e) => e@,
        }
    }

    pub fn message(&self) -> (r: String)
        ensures
            r@ == self.spec_message(),
    {
        match self {
            MessageError::NotJson(e) => e.clone(),
        }
    }
}

/// The rows of a terminal where a message names none.
pub const DEFAULT_ROWS: u64 = 24;

/// The columns of a terminal where a message names none.
pub const DEFAULT_COLS: u64 = 80;

/// The number at a place in an array, or a default, in its lowest sixteen bits.
pub open spec fn number_at(items: Seq<ItemView>, i: int, default: u64) -> u16 {
    let n = if i < items.len() && items[i] is Whole {
        items[i]->Whole_0
    } else {
        default
    };
    (n % 65536) as u16
}

/// What an array asks of the host.
pub open spec fn array_action(items: Seq<ItemView>) -> HostView {
    if items.len() == 0 {
        HostView::Ignore
    } else if items[0] == ItemView::Text("stdin"@) {
        if items.len() > 1 && items[1] is Text {
            HostView::Write(encode_utf8(items[1]->Text_0))
        } else {
            HostView::Ignore
        }
    } else if items[0] == ItemView::Text("set_size"@) {
        HostView::Resize {
            rows: number_at(items, 1, DEFAULT_ROWS),
            cols: number_at(items, 2, DEFAULT_COLS),
        }
    } else {
        HostView::Ignore
    }
}

/// The size that stands at a place in an array, in its lowest sixteen bits; a
/// default where no whole number does.
pub open spec fn size_or(items: Seq<JsonItem>, i: int, default: int) -> int {
    if i < items.len() && items[i] is Whole {
        items[i]->Whole_0 as int % 65536
    } else {
        default
    }
}

fn item_number(items: &Vec<JsonItem>, i: usize, default: u64) -> (r: u16)
    ensures
        r == number_at(item_views(items@), i as int, default),
        (i < items@.len() && items@[i as int] is Whole) ==> r
            == items@[i as int]->Whole_0 as int % 65536,
        !(i < items@.len() && items@[i as int] is Whole) ==> r == default as int % 65536,
{
    let mut n: u64 = default;
    if i < items.len() {
        assert(item_views(items@)[i as int] == items@[i as int]@);
        match items[i] {
            JsonItem::Whole(m) => {
                n = m;
            },
            _ => {},
        }
    }
    (n % 65536) as u16
}

/// Reads what an array asks of the host.
pub fn array_command(items: &Vec<JsonItem>) -> (r: HostAction)
    ensures
        r@ == array_action(item_views(items@)),
        items@.len() == 0 || !(items@[0] is Text) ==> r is Ignore,
        items@.len() > 0 && items@[0] is Text ==> {
            let cmd = items@[0]->Text_0@;
            &&& cmd == "stdin"@ && items@.len() > 1 && items@[1] is Text ==> (r
                matches HostAction::Write(bytes) && bytes@ == encode_utf8(items@[1]->Text_0@))
            &&& cmd == "stdin"@ && !(items@.len() > 1 && items@[1] is Text) ==> r is Ignore
            &&& cmd == "set_size"@ ==> (r matches HostAction::Resize { rows, cols } && rows
                == size_or(items@, 1, 24) && cols == size_or(items@, 2, 80))
            &&& cmd != "stdin"@ && cmd != "set_size"@ ==> r is Ignore
        },
{
    proof {
        reveal_strlit("stdin");
        reveal_strlit("set_size");
        assert("stdin"@.len() == 5 && "set_size"@.len() == 8);
    }
    let ghost views = item_views(items@);
    if items.len() == 0 {
        return HostAction::Ignore;
    }
    assert(views[0] == items@[0]@);
    match &items[0] {
        JsonItem::Text(cmd) => if same_text(cmd.as_str(), "stdin") {
            if items.len() > 1 {
                assert(views[1] == items@[1]@);
                match &items[1] {
                    JsonItem::Text(v) => HostAction::Write(v.as_str().as_bytes_vec()),
                    _ => HostAction::Ignore,
                }
            } else {
                HostAction::Ignore
            }
        } else if same_text(cmd.as_str(), "set_size") {
            HostAction::Resize {
                rows: item_number(items, 1, DEFAULT_ROWS),
                cols: item_number(items, 2, DEFAULT_COLS),
            }
        } else {
            HostAction::Ignore
        },
        _ => HostAction::Ignore,
    }
}

/// What a message of text asks of the host, or the words of the error where it
/// cannot be read.
pub open spec fn text_action(text: Seq<char>) -> Result<HostView, Seq<char>> {
    if text == "quit"@ {
        Ok(HostView::Quit)
    } else if crate::text::stands_at(text, "[\""@, 0) {
        match json_array(text) {
            Err(e) => Err(e),
            Ok(None) => Ok(HostView::Ignore),
            Ok(Some(items)) => Ok(array_action(items)),
        }
    } else {
        Ok(HostView::Ignore)
    }
}

/// What a message asks of the host, or the words of the error where it cannot be
/// read.
pub open spec fn host_action(is_string: bool, data: Seq<u8>) -> Result<HostView, Seq<char>> {
    if is_string {
        text_action(lossy_utf8(data))
    } else {
        Ok(HostView::Write(data))
    }
}

/// The message that ends a session.
pub open spec fn quit_data() -> Seq<u8> {
    encode_utf8("quit"@)
}

/// Whether an action is what the host does.
pub open spec fn does(r: Result<HostAction, MessageError>, action: HostView) -> bool {
    r matches Ok(a) && a@ == action
}

/// What is done about a message that starts as an array does, given what reading
/// it as JSON gave.
pub fn read_command(parsed: Result<Option<Vec<JsonItem>>, String>) -> (r: Result<
    HostAction,
    MessageError,
>)
    ensures
        match parsed {
            Err(e) => r == Err::<HostAction, _>(MessageError::NotJson(e)),
            Ok(None) => does(r, HostView::Ignore),
            Ok(Some(items)) => does(r, array_action(item_views(items@))),
        },
{
    match parsed {
        Err(e) => Err(MessageError::NotJson(e)),
        Ok(None) => Ok(HostAction::Ignore),
        Ok(Some(items)) => Ok(array_command(&items)),
    }
}

/// Decides what the host does about a message of text.
pub fn handle_host_text(text: &str) -> (r: Result<HostAction, MessageError>)
    ensures
        match r {
            Ok(action) => text_action(text@) == Ok::<_, Seq<char>>(action@),
            Err(e) => text_action(text@) == Err::<HostView, _>(e.spec_message()),
        },
        text@ == "quit"@ <==> (r is Ok && r->Ok_0 is Quit),
        text@ != "quit"@ && !(text@.len() >= 2 && text@[0] == '[' && text@[1] == '"') ==> (r
            matches Ok(action) && action is Ignore),
        text@.len() >= 2 && text@[0] == '[' && text@[1] == '"' ==> match json_array(text@) {
            Err(e) => r matches Err(MessageError::NotJson(said)) && said@ == e,
            Ok(None) => r matches Ok(action) && action is Ignore,
            Ok(Some(items)) => does(r, array_action(items)),
        },
        forall|rows: u16, cols: u16|
            text@ == #[trigger] size_text(rows, cols) ==> does(
                r,
                HostView::Resize { rows, cols },
            ),
        forall|typed: Seq<char>|
            text@ == #[trigger] stdin_text(typed) ==> does(
                r,
                HostView::Write(encode_utf8(typed)),
            ),
{
    proof {
        reveal_strlit("quit");
        reveal_strlit("[\"");
        if text@.len() >= 2 && text@[0] == '[' && text@[1] == '"' {
            assert(text@.subrange(0, 2) =~= "[\""@);
        }
        if crate::text::stands_at(text@, "[\""@, 0) {
            assert(text@.subrange(0, 2)[0] == text@[0] && text@.subrange(0, 2)[1] == text@[1]);
        }
        assert forall|rows: u16, cols: u16| text@ == #[trigger] size_text(rows, cols) implies
            text@ != "quit"@ && crate::text::stands_at(text@, "[\""@, 0) && array_action(
            size_items(rows, cols),
        ) == (HostView::Resize { rows, cols }) by {
            size_text_opens_array(rows, cols);
        }
        assert forall|typed: Seq<char>| text@ == #[trigger] stdin_text(typed) implies text@
            != "quit"@ && crate::text::stands_at(text@, "[\""@, 0) && array_action(
            stdin_items(typed),
        ) == HostView::Write(encode_utf8(typed)) by {
            stdin_text_opens_array(typed);
        }
    }
    if same_text(text, "quit") {
        return Ok(HostAction::Quit);
    }
    if starts_with(text, "[\"") {
        read_command(read_array(text))
    } else {
        Ok(HostAction::Ignore)
    }
}

/// Decides what the host does about a message. The other side's messages about
/// its size and about what was typed are understood as they were meant, and so is
/// its last one.
pub fn handle_host_message(is_string: bool, data: &[u8]) -> (r: Result<HostAction, MessageError>)
    ensures
        match r {
            Ok(action) => host_action(is_string, data@) == Ok::<_, Seq<char>>(action@),
            Err(e) => host_action(is_string, data@) == Err::<HostView, _>(e.spec_message()),
        },
        !is_string ==> (r matches Ok(HostAction::Write(bytes)) && bytes@ == data@),
        is_string ==> (lossy_utf8(data@) == "quit"@ <==> (r is Ok && r->Ok_0 is Quit)),
        is_string ==> forall|text: Seq<char>|
            #![trigger encode_utf8(text)]
            data@ == encode_utf8(text) && text != "quit"@ && !(text.len() >= 2 && text[0] == '['
                && text[1] == '"') ==> (r matches Ok(action) && action is Ignore),
        is_string ==> {
            let text = lossy_utf8(data@);
            let opens_array = text.len() >= 2 && text[0] == '[' && text[1] == '"';
            &&& opens_array ==> match json_array(text) {
                Err(e) => r matches Err(MessageError::NotJson(said)) && said@ == e,
                Ok(None) => r matches Ok(action) && action is Ignore,
                Ok(Some(items)) => does(r, array_action(items)),
            }
            &&& !opens_array && text != "quit"@ ==> (r matches Ok(action) && action is Ignore)
        },
        is_string && data@ == quit_data() ==> does(r, HostView::Quit),
        is_string ==> forall|rows: u16, cols: u16|
            data@ == encode_utf8(#[trigger] size_text(rows, cols)) ==> does(
                r,
                HostView::Resize { rows, cols },
            ),
        is_string ==> forall|typed: Seq<char>|
            data@ == encode_utf8(#[trigger] stdin_text(typed)) ==> does(
                r,
                HostView::Write(encode_utf8(typed)),
            ),
{
    if !is_string {
        let bytes = vstd::slice::slice_to_vec(data);
        return Ok(HostAction::Write(bytes));
    }
    let text = lossy_text(data);
    proof {
        assert forall|t: Seq<char>|
            #![trigger encode_utf8(t)]
            data@ == encode_utf8(t) implies text@ == t by {
            encode_utf8_decode_utf8(t);
            encode_utf8_valid_utf8(t);
        }
        encode_utf8_decode_utf8("quit"@);
        encode_utf8_valid_utf8("quit"@);
        assert forall|rows: u16, cols: u16|
            data@ == encode_utf8(#[trigger] size_text(rows, cols)) implies text@ == size_text(
            rows,
            cols,
        ) by {
            encode_utf8_decode_utf8(size_text(rows, cols));
            encode_utf8_valid_utf8(size_text(rows, cols));
        }
        assert forall|typed: Seq<char>|
            data@ == encode_utf8(#[trigger] stdin_text(typed)) implies text@ == stdin_text(
            typed,
        ) by {
            encode_utf8_decode_utf8(stdin_text(typed));
            encode_utf8_valid_utf8(stdin_text(typed));
        }
    }
    handle_host_text(text.as_str())
}

proof fn stdin_text_opens_array(typed: Seq<char>)
    ensures
        stdin_text(typed) != "quit"@,
        crate::text::stands_at(stdin_text(typed), "[\""@, 0),
        array_action(stdin_items(typed)) == HostView::Write(encode_utf8(typed)),
{
    reveal_strlit("quit");
    reveal_strlit("[\"");
    reveal_strlit("[\"stdin\",");
    let s = stdin_text(typed);
    assert(s[0] == '[' && s[1] == '"');
    assert(s.subrange(0, 2) =~= "[\""@);
    assert("quit"@[0] == 'q');
}

proof fn size_text_opens_array(rows: u16, cols: u16)
    ensures
        size_text(rows, cols) != "quit"@,
        crate::text::stands_at(size_text(rows, cols), "[\""@, 0),
        array_action(size_items(rows, cols)) == (HostView::Resize { rows, cols }),
{
    reveal_strlit("quit");
    reveal_strlit("[\"");
    reveal_strlit("[\"set_size\",");
    reveal_strlit("stdin");
    reveal_strlit("set_size");
    let s = size_text(rows, cols);
    assert(s[0] == '[' && s[1] == '"');
    assert(s.subrange(0, 2) =~= "[\""@);
    assert("quit"@[0] == 'q');
    assert("stdin"@.len() == 5 && "set_size"@.len() == 8);
}

/// What the client does about a message.
#[derive(Debug, Clone)]
pub enum ClientAction {
    /// The session is over.
    Quit,
    /// These bytes are shown.
    Print(Vec<u8>),
    /// A text that means nothing to the client.
    Unmatched(String),
}

/// Whether an action is what a message of text asks of the client.
pub open spec fn client_does_text(text: Seq<char>, action: ClientAction) -> bool {
    if text == "quit"@ {
        action is Quit
    } else {
        action matches ClientAction::Unmatched(t) && t@ == text
    }
}

/// Whether an action is what a message asks of the client.
pub open spec fn client_does(is_string: bool, data: Seq<u8>, action: ClientAction) -> bool {
    if is_string {
        client_does_text(lossy_utf8(data), action)
    } else {
        action matches ClientAction::Print(bytes) && bytes@ == data
    }
}

/// Decides what the client does about a message of text.
pub fn handle_client_text(text: String) -> (r: ClientAction)
    ensures
        client_does_text(text@, r),
        r is Quit <==> text@ == "quit"@,
        text@ != "quit"@ ==> (r matches ClientAction::Unmatched(t) && t@ == text@),
{
    if same_text(text.as_str(), "quit") {
        ClientAction::Quit
    } else {
        ClientAction::Unmatched(text)
    }
}

/// Decides what the client does about a message. The host's last message is
/// understood as it was meant.
pub fn handle_client_message(is_string: bool, data: &[u8]) -> (r: ClientAction)
    ensures
        client_does(is_string, data@, r),
        !is_string ==> (r matches ClientAction::Print(bytes) && bytes@ == data@),
        is_string ==> (r is Quit <==> lossy_utf8(data@) == "quit"@),
        is_string && !(r is Quit) ==> (r matches ClientAction::Unmatched(t) && t@ == lossy_utf8(
            data@,
        )),
        is_string && data@ == quit_data() ==> r is Quit,
{
    if !is_string {
        let bytes = vstd::slice::slice_to_vec(data);
        return ClientAction::Print(bytes);
    }
    proof {
        encode_utf8_decode_utf8("quit"@);
        encode_utf8_valid_utf8("quit"@);
    }
    handle_client_text(lossy_text(data))
}

/// Writes the message that tells the size of a terminal.
pub fn term_size_message(rows: u16, cols: u16) -> (r: String)
    ensures
        r@ == size_text(rows, cols),
        r@ == "[\"set_size\","@ + crate::text::decimal(rows as nat) + ","@ + crate::text::decimal(
            cols as nat,
        ) + "]"@,
{
    let mut s = "[\"set_size\",".to_string();
    s.append(decimal_text(rows as u64).as_str());
    s.append(",");
    s.append(decimal_text(cols as u64).as_str());
    s.append("]");
    s
}

/// What a read gave.
#[derive(Debug, Clone)]
pub enum ReadOutcome {
    /// Nothing more will come.
    End,
    /// These bytes came.
    Data(Vec<u8>),
    Failed(String),
}

/// How a pump that moves bytes from one place to another goes on.
#[derive(Debug, Clone)]
pub enum PumpStep {
    /// These bytes are handed on.
    Send(Vec<u8>),
    /// The next bytes are read.
    Read,
    /// The pump stops, and the session ends with this error where there is one.
    Stop(Option<String>),
}

/// Whether a step hands some bytes on.
pub open spec fn sends(step: PumpStep, bytes: Seq<u8>) -> bool {
    step matches PumpStep::Send(b) && b@ == bytes
}

/// Whether a step stops the pump with an error.
pub open spec fn stops_with(step: PumpStep, text: Seq<char>) -> bool {
    step matches PumpStep::Stop(Some(s)) && s@ == text
}

fn stop_with(what: &str, cause: &str) -> (r: PumpStep)
    ensures
        stops_with(r, what@ + cause@),
{
    let mut s = what.to_string();
    s.append(cause);
    PumpStep::Stop(Some(s))
}

/// Decides what follows a read from the terminal of a session: what it shows is
/// sent to the other side.
pub fn after_pty_read(read: ReadOutcome) -> (r: PumpStep)
    ensures
        match read {
            ReadOutcome::End => stops_with(r, "pty eof"@),
            ReadOutcome::Data(bytes) => sends(r, bytes@),
            ReadOutcome::Failed(e) => stops_with(r, "pty read error: "@ + e@),
        },
        read matches ReadOutcome::Data(bytes) ==> r == PumpStep::Send(bytes),
        !(read is Data) ==> (r matches PumpStep::Stop(said) && said is Some),
{
    match read {
        ReadOutcome::End => PumpStep::Stop(Some("pty eof".to_string())),
        ReadOutcome::Data(bytes) => PumpStep::Send(bytes),
        ReadOutcome::Failed(e) => stop_with("pty read error: ", e.as_str()),
    }
}

/// Decides what follows when the host sent what its terminal showed.
pub fn after_pty_send(sent: Result<(), String>) -> (r: PumpStep)
    ensures
        match sent {
            Ok(_) => r is Read,
            Err(e) => stops_with(r, "dc send error: "@ + e@),
        },
        sent is Err ==> (r matches PumpStep::Stop(said) && said is Some),
{
    match sent {
        Ok(_) => PumpStep::Read,
        Err(e) => stop_with("dc send error: ", e.as_str()),
    }
}

/// Decides what follows a read of the client's keyboard: what was typed is sent
/// to the host.
pub fn after_stdin_read(read: ReadOutcome) -> (r: PumpStep)
    ensures
        match read {
            ReadOutcome::End => r == PumpStep::Stop(None),
            ReadOutcome::Data(bytes) => sends(r, bytes@),
            ReadOutcome::Failed(e) => stops_with(r, "stdin read error: "@ + e@),
        },
        read matches ReadOutcome::Data(bytes) ==> r == PumpStep::Send(bytes),
        read is Failed ==> (r matches PumpStep::Stop(said) && said is Some),
{
    match read {
        ReadOutcome::End => PumpStep::Stop(None),
        ReadOutcome::Data(bytes) => PumpStep::Send(bytes),
        ReadOutcome::Failed(e) => stop_with("stdin read error: ", e.as_str()),
    }
}

/// Decides what follows when the client sent what was typed.
pub fn after_stdin_send(sent: Result<(), String>) -> (r: PumpStep)
    ensures
        match sent {
            Ok(_) => r is Read,
            Err(e) => stops_with(r, "stdin send error: "@ + e@),
        },
        sent is Err ==> (r matches PumpStep::Stop(said) && said is Some),
{
    match sent {
        Ok(_) => PumpStep::Read,
        Err(e) => stop_with("stdin send error: ", e.as_str()),
    }
}

/// Decides what follows a read of the host's own keyboard: what was typed goes
/// into the shared terminal. Whatever stops this pump does not end the session.
pub fn after_keyboard_read(read: ReadOutcome) -> (r: PumpStep)
    ensures
        match read {
            ReadOutcome::Data(bytes) => sends(r, bytes@),
            _ => r == PumpStep::Stop(None),
        },
        read matches ReadOutcome::Data(bytes) ==> r == PumpStep::Send(bytes),
{
    match read {
        ReadOutcome::Data(bytes) => PumpStep::Send(bytes),
        _ => PumpStep::Stop(None),
    }
}

/// What became of bytes for the shared terminal.
#[derive(Debug, Clone, Copy, PartialEq, Eq, Structural)]
pub enum TypeOutcome {
    /// The terminal is not there yet; the bytes are dropped.
    NotReady,
    Typed,
    Failed,
}

/// Decides what follows when what was typed at the host went into the shared
/// terminal.
pub fn after_keyboard_write(written: TypeOutcome) -> (r: PumpStep)
    ensures
        r == (if written == TypeOutcome::Failed {
            PumpStep::Stop(None)
        } else {
            PumpStep::Read
        }),
{
    match written {
        TypeOutcome::Failed => PumpStep::Stop(None),
        _ => PumpStep::Read,
    }
}

/// How a session ended, by what came in last: an error, a good end, or nothing
/// because nobody is left to send anything.
pub fn session_outcome(last: Option<Option<String>>) -> (r: Result<(), String>)
    ensures
        match last {
            Some(Some(e)) => r == Err::<(), String>(e),
            _ => r is Ok,
        },
{
    match last {
        Some(Some(e)) => Err(e),
        _ => Ok(()),
    }
}

} // verus!
