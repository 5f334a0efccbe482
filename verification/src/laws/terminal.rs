//! What is typed and shown on one side comes out on the other.

use crate::cli::{extract_cmd, is_non_interactive};
use crate::pty::{pty_command, LocalShare, PtyCommand};
use crate::serve::preview_command;
use crate::session::{
    on_browser_peer_state, on_dtls_state, on_ice_state, on_peer_state, LinkReaction, LinkState,
};
use crate::wire::{
    after_keyboard_read, after_keyboard_write, after_pty_read, after_pty_send, after_stdin_read,
    after_stdin_send, array_command, handle_client_message, handle_host_message, session_outcome,
    term_size_message, ClientAction, HostAction, JsonItem, MessageError, PumpStep, ReadOutcome,
    TypeOutcome,
};
use vstd::prelude::*;
use vstd::string::*;
use vstd::utf8::*;

verus! {

/// What is typed at the client is typed into the host's terminal, byte for byte,
/// however few or many bytes come at once.
pub proof fn typed_bytes_reach_the_terminal(
    bytes: Vec<u8>,
    step: PumpStep,
    message: &[u8],
    done: Result<HostAction, MessageError>,
)
    requires
        call_ensures(after_stdin_read, (ReadOutcome::Data(bytes),), step),
        step matches PumpStep::Send(sent) ==> message@ == sent@,
        call_ensures(handle_host_message, (false, message), done),
    ensures
        step is Send,
        done matches Ok(HostAction::Write(written)) && written@ == bytes@,
{
}

/// What the host's terminal shows is shown at the client, byte for byte.
pub proof fn shown_bytes_reach_the_client(
    bytes: Vec<u8>,
    step: PumpStep,
    message: &[u8],
    done: ClientAction,
)
    requires
        call_ensures(after_pty_read, (ReadOutcome::Data(bytes),), step),
        step matches PumpStep::Send(sent) ==> message@ == sent@,
        call_ensures(handle_client_message, (false, message), done),
    ensures
        step is Send,
        done matches ClientAction::Print(printed) && printed@ == bytes@,
{
}

/// The size that a client tells of its terminal becomes that of the host's.
pub proof fn size_reaches_the_terminal(
    rows: u16,
    cols: u16,
    text: String,
    message: &[u8],
    done: Result<HostAction, MessageError>,
)
    requires
        call_ensures(term_size_message, (rows, cols), text),
        message@ == encode_utf8(text@),
        call_ensures(handle_host_message, (true, message), done),
    ensures
        done == Ok::<_, MessageError>(HostAction::Resize { rows, cols }),
{
    assert(text@ == crate::wire::size_text(rows, cols));
}

/// A text that the other side hands over to be typed is typed as it is, whatever
/// characters it holds.
pub proof fn handed_over_text_is_typed(
    typed: Seq<char>,
    message: &[u8],
    done: Result<HostAction, MessageError>,
)
    requires
        message@ == encode_utf8(crate::wire::stdin_text(typed)),
        call_ensures(handle_host_message, (true, message), done),
    ensures
        done matches Ok(HostAction::Write(written)) && written@ == encode_utf8(typed),
{
}

/// Either side takes the other's last message for the end, and no message that is
/// another text.
pub proof fn last_message_ends_both_sides(
    text: Seq<char>,
    message: &[u8],
    at_host: Result<HostAction, MessageError>,
    at_client: ClientAction,
)
    requires
        message@ == encode_utf8(text),
        call_ensures(handle_host_message, (true, message), at_host),
        call_ensures(handle_client_message, (true, message), at_client),
    ensures
        text == "quit"@ ==> at_host == Ok::<_, MessageError>(HostAction::Quit),
        text == "quit"@ ==> at_client == ClientAction::Quit,
{
}

/// A message of text that is no request leaves the terminal alone, and the client
/// shows nothing for it.
pub proof fn other_texts_change_nothing(
    text: Seq<char>,
    message: &[u8],
    at_host: Result<HostAction, MessageError>,
    at_client: ClientAction,
)
    requires
        message@ == encode_utf8(text),
        text != "quit"@,
        !(text.len() >= 2 && text[0] == '[' && text[1] == '"'),
        call_ensures(handle_host_message, (true, message), at_host),
        call_ensures(handle_client_message, (true, message), at_client),
    ensures
        at_host == Ok::<_, MessageError>(HostAction::Ignore),
        !(at_client is Print),
{
}

/// Every pump hands on all that it reads, goes on when that went through, and stops
/// when nothing more comes or something fails. Only the host's own keyboard does
/// not end the session when it fails, nor the end of the client's input.
pub proof fn pumps_hand_on_what_they_read(
    read: ReadOutcome,
    sent: Result<(), String>,
    pty: PumpStep,
    pty_sent: PumpStep,
    stdin: PumpStep,
    stdin_sent: PumpStep,
    keyboard: PumpStep,
)
    requires
        call_ensures(after_pty_read, (read,), pty),
        call_ensures(after_pty_send, (sent,), pty_sent),
        call_ensures(after_stdin_read, (read,), stdin),
        call_ensures(after_stdin_send, (sent,), stdin_sent),
        call_ensures(after_keyboard_read, (read,), keyboard),
    ensures
        read matches ReadOutcome::Data(bytes) ==> {
            &&& pty matches PumpStep::Send(b) && b@ == bytes@
            &&& stdin matches PumpStep::Send(b) && b@ == bytes@
            &&& keyboard matches PumpStep::Send(b) && b@ == bytes@
        },
        !(read is Data) ==> pty is Stop && stdin is Stop && keyboard is Stop,
        read is End ==> (pty matches PumpStep::Stop(e) && e is Some) && stdin == PumpStep::Stop(
            None,
        ),
        read matches ReadOutcome::Failed(cause) ==> {
            &&& pty matches PumpStep::Stop(Some(e)) && e@ == "pty read error: "@ + cause@
            &&& stdin matches PumpStep::Stop(Some(e)) && e@ == "stdin read error: "@ + cause@
        },
        keyboard is Stop ==> keyboard == PumpStep::Stop(None),
        sent is Ok ==> pty_sent is Read && stdin_sent is Read,
        sent matches Err(cause) ==> {
            &&& pty_sent matches PumpStep::Stop(Some(e)) && e@ == "dc send error: "@ + cause@
            &&& stdin_sent matches PumpStep::Stop(Some(e)) && e@ == "stdin send error: "@ + cause@
        },
{
}

/// The host's keyboard goes on while its terminal takes what is typed, or is not
/// there yet.
pub proof fn keyboard_waits_for_the_terminal(written: TypeOutcome, step: PumpStep)
    requires
        call_ensures(after_keyboard_write, (written,), step),
    ensures
        written == TypeOutcome::Failed <==> step is Stop,
        step is Stop ==> step == PumpStep::Stop(None),
        !(step is Stop) ==> step is Read,
{
}

/// A session ends well unless an error was the last that came in.
pub proof fn last_word_decides_on_the_session(last: Option<Option<String>>, r: Result<(), String>)
    requires
        call_ensures(session_outcome, (last,), r),
    ensures
        r is Err <==> (last is Some && last->0 is Some),
        r matches Err(e) ==> last == Some(Some(e)),
{
}

/// A connection that works ends nothing and warns of nothing. One that fails always
/// ends the session; one that is only closed ends a browser's.
pub proof fn failed_connection_ends_the_session(
    state: LinkState,
    id: &str,
    ice: LinkReaction,
    dtls: LinkReaction,
    peer: Option<String>,
    browser: Option<String>,
)
    requires
        call_ensures(on_ice_state, (state,), ice),
        call_ensures(on_dtls_state, (state,), dtls),
        call_ensures(on_peer_state, (state,), peer),
        call_ensures(on_browser_peer_state, (id, state), browser),
    ensures
        ice.error is None,
        ice.warning is Some <==> state == LinkState::Failed,
        dtls.error is Some <==> state == LinkState::Failed,
        dtls.warning is Some <==> state == LinkState::Failed,
        peer is Some <==> state == LinkState::Failed,
        browser is Some <==> state != LinkState::Other,
{
}

/// A host that stays out shares nothing of its own terminal, and takes every key at
/// once only from a terminal of its own.
pub proof fn host_that_stays_out_shares_nothing(
    non_interactive: bool,
    stdin_is_terminal: bool,
    host: LocalShare,
    server: LocalShare,
)
    requires
        call_ensures(LocalShare::host, (non_interactive, stdin_is_terminal), host),
        call_ensures(LocalShare::server, (non_interactive,), server),
    ensures
        non_interactive ==> !host.stdin && !host.raw && !host.stdout && !server.stdin,
        !non_interactive ==> host.stdout && server.stdin,
        host.stdin <==> !non_interactive && stdin_is_terminal,
        host.raw <==> host.stdin,
        !server.raw && !server.stdout,
{
}

/// A web server's terminals never use the host's own keyboard and screen, and no
/// other's do where that is asked for.
pub proof fn web_server_stays_out(
    non_interactive: bool,
    ni: bool,
    serve: Option<u16>,
    r: bool,
)
    requires
        call_ensures(is_non_interactive, (non_interactive, ni, serve), r),
    ensures
        serve is Some ==> r,
        non_interactive || ni ==> r,
        r ==> non_interactive || ni || serve is Some,
{
}

/// What stands behind the first `-cmd` is run: its first word is the program, the
/// others are what it is handed. Without one a login shell is run. What a server
/// shows for a command is the words that are run, with blanks between.
pub proof fn command_is_run_as_it_was_written(
    args: Vec<String>,
    split: (Vec<String>, Vec<String>),
    run: PtyCommand,
    shown: String,
)
    requires
        call_ensures(extract_cmd, (args,), split),
        call_ensures(pty_command, (&split.0,), run),
        call_ensures(preview_command, (&split.0,), shown),
    ensures
        ({
            let words = seq![run.program@] + crate::text::views(run.args@);
            let given = crate::text::views(args@);
            let others = crate::text::views(split.1@);
            &&& !others.contains("-cmd"@)
            &&& given.contains("-cmd"@) && given.last() != "-cmd"@ ==> given == others + seq![
                "-cmd"@,
            ] + words
            &&& !given.contains("-cmd"@) ==> given == others && words == seq!["bash"@, "-l"@]
            &&& shown@ == crate::text::joined(words, " "@)
        }),
{
    let cmd = split.0@;
    let views = crate::text::views(cmd);
    let words = seq![run.program@] + crate::text::views(run.args@);
    let given = crate::text::views(args@);
    let others = crate::text::views(split.1@);
    crate::pty::preview_names_what_runs(cmd, run);
    if cmd.len() > 0 {
        assert(views =~= words) by {
            assert(cmd == seq![run.program] + run.args@);
        }
    } else {
        assert(words =~= seq!["bash"@, "-l"@]);
        if given.contains("-cmd"@) {
            assert(given =~= others + seq!["-cmd"@]);
            assert(given.last() == "-cmd"@);
        }
    }
}

/// A request for a size that names none gives the size that a terminal starts with,
/// and one that names a number takes its lowest sixteen bits.
pub proof fn sizes_that_are_not_named_are_those_of_a_new_terminal(
    items: Vec<JsonItem>,
    done: HostAction,
)
    requires
        items@.len() > 0,
        items@[0] matches JsonItem::Text(cmd) && cmd@ == "set_size"@,
        call_ensures(array_command, (&items,), done),
    ensures
        done matches HostAction::Resize { rows, cols } && {
            &&& items@.len() < 2 || !(items@[1] is Whole) ==> rows == crate::pty::INITIAL_ROWS
                && rows == 24
            &&& items@.len() < 3 || !(items@[2] is Whole) ==> cols == crate::pty::INITIAL_COLS
                && cols == 80
            &&& items@.len() >= 2 ==> (items@[1] matches JsonItem::Whole(n) ==> rows == n as int
                % 65536)
            &&& items@.len() >= 3 ==> (items@[2] matches JsonItem::Whole(n) ==> cols == n as int
                % 65536)
        },
{
}

} // verus!
