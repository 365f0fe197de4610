//! The Assuan server side of pinentry as a state machine: each input line
//! yields the next session state and a [`Step`] that says what to send or
//! which dialog to show. Reading, writing and dialogs belong to the caller.

use vstd::prelude::*;
use vstd::utf8::*;
use vstd::string::*;
use crate::codec::{
    lemma_percent_encoded_single_line, percent_decode, percent_decoded, percent_encode,
    percent_encoded_text, utf8_lossy,
};
use crate::error::{
    gpg_error_string, gpg_error_text, AssuanError, CommandResult, GPG_ERR_ASS_GENERAL,
    GPG_ERR_ASS_UNKNOWN_CMD, GPG_ERR_CANCELED,
};
use crate::state::{option_applied, reset_model, zeroize_string, PinentryState, StateModel};
use crate::text::{
    ascii_upper, char_position, chars_eq, chars_to_string, chars_to_upper, decimal_text, find_char,
    lemma_encode_utf8_concat, push_decimal, push_str, slice_chars, str_chars, strip_line_end, trim,
    trim_range,
};

verus! {

/// Assuan line length limit, in bytes, of a line without its line ending.
pub const ASSUAN_LINELENGTH: usize = 1000;

/// Protocol version this server speaks.
pub const VERSION: &'static str = "1.0.0";

/// One answer line of the server.
pub enum Response {
    /// `OK`: the command succeeded.
    Success,
    /// `ERR <code> <description>`: the command failed.
    Failure(AssuanError),
    /// `D <data>`: a data line (percent-encoded on the wire).
    Data(String),
}

/// The content of a [`Response`].
pub enum ResponseModel {
    Success,
    Failure(u32, Seq<char>),
    Data(Seq<char>),
}

impl View for Response {
    type V = ResponseModel;

    open spec fn view(&self) -> ResponseModel {
        match self {
            Response::Success => ResponseModel::Success,
            Response::Failure(e) => ResponseModel::Failure(e.code, e.message@),
            Response::Data(d) => ResponseModel::Data(d@),
        }
    }
}

/// The contents of a list of responses.
pub open spec fn responses_view(rs: Seq<Response>) -> Seq<ResponseModel> {
    rs.map_values(|r: Response| r@)
}

/// What the caller does after one input line.
pub enum Step {
    /// Send these lines (none for a blank or comment line) and read on.
    Respond(Vec<Response>),
    /// BYE: acknowledge with `OK` and end the session.
    Bye,
    /// Show the passphrase dialog, then answer with [`handle_getpin`].
    GetPin,
    /// Show the confirmation dialog, then answer with [`handle_confirm`].
    Confirm,
    /// Show the message dialog (the state is in one-button mode meanwhile),
    /// then answer with [`handle_message`], passing the saved flag back.
    Message(bool),
    /// GETINFO pid: answer with [`handle_pid`] and this process's id.
    GetInfoPid,
}

/// The content of a [`Step`].
pub enum StepModel {
    Respond(Seq<ResponseModel>),
    Bye,
    GetPin,
    Confirm,
    Message(bool),
    GetInfoPid,
}

impl View for Step {
    type V = StepModel;

    open spec fn view(&self) -> StepModel {
        match self {
            Step::Respond(rs) => StepModel::Respond(responses_view(rs@)),
            Step::Bye => StepModel::Bye,
            Step::GetPin => StepModel::GetPin,
            Step::Confirm => StepModel::Confirm,
            Step::Message(prev) => StepModel::Message(*prev),
            Step::GetInfoPid => StepModel::GetInfoPid,
        }
    }
}

/// The error answer for a code, with the code's standard text.
pub open spec fn error_reply(code: u32) -> ResponseModel {
    ResponseModel::Failure(code, gpg_error_text(code))
}

/// A lone `OK`.
pub open spec fn ok_step() -> StepModel {
    StepModel::Respond(seq![ResponseModel::Success])
}

/// A data line followed by `OK`.
pub open spec fn data_step(data: Seq<char>) -> StepModel {
    StepModel::Respond(seq![ResponseModel::Data(data), ResponseModel::Success])
}

/// The text a SET* command stores: its argument (empty when absent),
/// percent-decoded and read as UTF-8.
pub open spec fn decoded_argument(arg: Option<Seq<char>>) -> Seq<char> {
    let a = match arg {
        Some(a) => a,
        None => Seq::empty(),
    };
    utf8_lossy(percent_decoded(encode_utf8(a)))
}

/// `OPTION key=value`, `OPTION key value` or `OPTION key`: the name and the
/// optional value, split at the first `=`, else at the first space.
pub open spec fn option_parts(a: Seq<char>) -> (Seq<char>, Option<Seq<char>>) {
    match char_position(a, '=') {
        Some(e) => (a.take(e), Some(a.skip(e + 1))),
        None => match char_position(a, ' ') {
            Some(p) => (a.take(p), Some(a.skip(p + 1))),
            None => (a, None),
        },
    }
}

/// GETINFO: the sub-command is the text before the first `:`, compared
/// without regard to ASCII case.
pub open spec fn getinfo_step(sub: Seq<char>) -> StepModel {
    let name = ascii_upper(
        match char_position(sub, ':') {
            Some(p) => sub.take(p),
            None => sub,
        },
    );
    if name == "VERSION"@ {
        data_step("1.0.0"@)
    } else if name == "PID"@ {
        StepModel::GetInfoPid
    } else if name == "FLAVOR"@ {
        data_step("windows"@)
    } else if name == "TTYINFO"@ {
        data_step("- - - - - -"@)
    } else if name == "FEATURES"@ {
        data_step(Seq::empty())
    } else {
        StepModel::Respond(seq![error_reply(GPG_ERR_ASS_UNKNOWN_CMD)])
    }
}

/// A command with its upper-cased verb and its trimmed argument: the next
/// state and the step.
pub open spec fn command_step(s: StateModel, verb: Seq<char>, arg: Option<Seq<char>>) -> (
    StateModel,
    StepModel,
) {
    let text = decoded_argument(arg);
    if verb == "NOP"@ {
        (s, ok_step())
    } else if verb == "RESET"@ {
        (reset_model(s), ok_step())
    } else if verb == "BYE"@ {
        (s, StepModel::Bye)
    } else if verb == "OPTION"@ {
        let (name, value) = option_parts(
            match arg {
                Some(a) => a,
                None => Seq::empty(),
            },
        );
        (option_applied(s, name, value), ok_step())
    } else if verb == "SETDESC"@ {
        (StateModel { desc: text, ..s }, ok_step())
    } else if verb == "SETPROMPT"@ {
        (StateModel { prompt: text, ..s }, ok_step())
    } else if verb == "SETTITLE"@ {
        (StateModel { title: text, ..s }, ok_step())
    } else if verb == "SETOK"@ {
        (StateModel { ok_button: text, ..s }, ok_step())
    } else if verb == "SETCANCEL"@ {
        (StateModel { cancel_button: text, ..s }, ok_step())
    } else if verb == "SETNOTOK"@ {
        (StateModel { notok_button: text, notok_set: true, ..s }, ok_step())
    } else if verb == "SETERROR"@ {
        (StateModel { error_text: text, ..s }, ok_step())
    } else if verb == "SETKEYINFO"@ {
        (StateModel { keyinfo: text, ..s }, ok_step())
    } else if verb == "SETREPEATOK"@ || verb == "SETREPEAT"@ {
        (StateModel { repeat_ok: true, ..s }, ok_step())
    } else if verb == "CLEARPASSPHRASE"@ || verb == "SETQUALITYBAR"@ {
        (s, ok_step())
    } else if verb == "GETPIN"@ {
        (s, StepModel::GetPin)
    } else if verb == "CONFIRM"@ {
        let one = match arg {
            Some(a) => trim(a) == "--one-button"@,
            None => false,
        };
        (if one {
            StateModel { one_button: true, ..s }
        } else {
            s
        }, StepModel::Confirm)
    } else if verb == "MESSAGE"@ {
        (StateModel { one_button: true, ..s }, StepModel::Message(s.one_button))
    } else if verb == "GETINFO"@ {
        (
            s,
            getinfo_step(
                match arg {
                    Some(a) => a,
                    None => Seq::empty(),
                },
            ),
        )
    } else if verb == "CANCEL"@ {
        (s, ok_step())
    } else {
        (s, StepModel::Respond(seq![error_reply(GPG_ERR_ASS_UNKNOWN_CMD)]))
    }
}

/// A command line without its line ending: the verb before the first space,
/// and the trimmed rest as argument when there is a space.
pub open spec fn command_parts(l: Seq<char>) -> (Seq<char>, Option<Seq<char>>) {
    match char_position(l, ' ') {
        Some(p) => (l.take(p), Some(trim(l.skip(p + 1)))),
        None => (l, None),
    }
}

/// One input line (as read, line ending included): the next state and step.
/// Blank and `#` comment lines are skipped without an answer; a line longer
/// than [`ASSUAN_LINELENGTH`] bytes is refused; otherwise the verb is matched
/// without regard to ASCII case.
pub open spec fn line_step(s: StateModel, line: Seq<char>) -> (StateModel, StepModel) {
    let l = strip_line_end(line);
    if l.len() == 0 || l[0] == '#' {
        (s, StepModel::Respond(Seq::empty()))
    } else if encode_utf8(l).len() > ASSUAN_LINELENGTH {
        (s, StepModel::Respond(seq![ResponseModel::Failure(GPG_ERR_ASS_GENERAL, "line too long"@)]))
    } else {
        let (verb, arg) = command_parts(l);
        command_step(s, ascii_upper(verb), arg)
    }
}

/// The characters of an optional vector.
pub open spec fn opt_chars_view(arg: Option<Vec<char>>) -> Option<Seq<char>> {
    match arg {
        Some(a) => Some(a@),
        None => None,
    }
}

/// The text a SET* command stores for its argument.
fn argument_text(arg: &Option<Vec<char>>) -> (res: String)
    ensures
        res@ == decoded_argument(opt_chars_view(*arg)),
{
    let s = match arg {
        Some(a) => {
            let t = chars_to_string(a.as_slice(), 0, a.len());
            assert(a@.subrange(0, a@.len() as int) =~= a@);
            t
        },
        None => String::new(),
    };
    percent_decode(s.as_str())
}

/// A response list with one error answer.
fn error_responses(code: u32, message: &str) -> (res: Vec<Response>)
    ensures
        responses_view(res@) == seq![ResponseModel::Failure(code, message@)],
{
    let res = vec![Response::Failure(AssuanError::new(code, message))];
    assert(responses_view(res@) =~= seq![ResponseModel::Failure(code, message@)]);
    res
}

/// `OK` alone.
fn ok_responses() -> (res: Vec<Response>)
    ensures
        responses_view(res@) == seq![ResponseModel::Success],
{
    let res = vec![Response::Success];
    assert(responses_view(res@) =~= seq![ResponseModel::Success]);
    res
}

/// A data line followed by `OK`.
fn data_responses(data: &str) -> (res: Vec<Response>)
    ensures
        responses_view(res@) == seq![ResponseModel::Data(data@), ResponseModel::Success],
{
    let res = vec![Response::Data(data.to_owned()), Response::Success];
    assert(responses_view(res@) =~= seq![ResponseModel::Data(data@), ResponseModel::Success]);
    res
}

/// OPTION: splits `key=value` / `key value` / `key` and applies the option.
pub fn handle_option(state: &mut PinentryState, arg: &str) -> (res: CommandResult)
    ensures
        (res is Ok),
        final(state)@ == option_applied(old(state)@, option_parts(arg@).0, option_parts(arg@).1),
{
    let a = str_chars(arg);
    let n = a.len();
    let (key, value): (String, Option<String>) = match find_char(a.as_slice(), 0, n, '=') {
        Some(eq) => (
            chars_to_string(a.as_slice(), 0, eq),
            Some(chars_to_string(a.as_slice(), eq + 1, n)),
        ),
        None => match find_char(a.as_slice(), 0, n, ' ') {
            Some(sp) => (
                chars_to_string(a.as_slice(), 0, sp),
                Some(chars_to_string(a.as_slice(), sp + 1, n)),
            ),
            None => (chars_to_string(a.as_slice(), 0, n), None),
        },
    };
    assert(a@.subrange(0, n as int) =~= a@);
    proof {
        let (k, v) = option_parts(a@);
        assert(k == key@);
        assert(match v {
            Some(x) => value is Some && value.unwrap()@ == x,
            None => value is None,
        }) by {
            match char_position(a@, '=') {
                Some(e) => {
                    assert(a@.skip(e + 1) =~= a@.subrange(e + 1, n as int));
                },
                None => match char_position(a@, ' ') {
                    Some(p) => {
                        assert(a@.skip(p + 1) =~= a@.subrange(p + 1, n as int));
                    },
                    None => {},
                },
            }
        }
    }
    let v: Option<&str> = match &value {
        Some(x) => Some(x.as_str()),
        None => None,
    };
    state.apply_option(key.as_str(), v)
}

/// GETINFO with its argument: the step that answers it.
pub fn handle_getinfo(sub: &[char]) -> (res: Step)
    ensures
        res@ == getinfo_step(sub@),
{
    let n = sub.len();
    let end = match find_char(sub, 0, n, ':') {
        Some(p) => p,
        None => n,
    };
    let name = chars_to_upper(sub, 0, end);
    assert(sub@.subrange(0, end as int) == match char_position(sub@, ':') {
        Some(p) => sub@.take(p),
        None => sub@,
    }) by {
        assert(sub@.subrange(0, n as int) =~= sub@);
        assert(sub@.take(end as int) =~= sub@.subrange(0, end as int));
    }
    if chars_eq(name.as_slice(), "VERSION") {
        Step::Respond(data_responses(VERSION))
    } else if chars_eq(name.as_slice(), "PID") {
        Step::GetInfoPid
    } else if chars_eq(name.as_slice(), "FLAVOR") {
        Step::Respond(data_responses("windows"))
    } else if chars_eq(name.as_slice(), "TTYINFO") {
        // Six space-separated fields (tty name and type, locale, display);
        // there is no terminal, so each is a dash.
        Step::Respond(data_responses("- - - - - -"))
    } else if chars_eq(name.as_slice(), "FEATURES") {
        let res = vec![Response::Data(String::new()), Response::Success];
        assert(responses_view(res@) =~= seq![
            ResponseModel::Data(Seq::empty()),
            ResponseModel::Success,
        ]);
        Step::Respond(res)
    } else {
        Step::Respond(error_responses(GPG_ERR_ASS_UNKNOWN_CMD, gpg_error_string(GPG_ERR_ASS_UNKNOWN_CMD)))
    }
}

/// A command, given its upper-cased verb and its trimmed argument: updates
/// the state and returns the step.
fn dispatch(state: &mut PinentryState, verb: &[char], arg: Option<Vec<char>>) -> (step: Step)
    ensures
        final(state)@ == command_step(old(state)@, verb@, opt_chars_view(arg)).0,
        step@ == command_step(old(state)@, verb@, opt_chars_view(arg)).1,
{
    if chars_eq(verb, "NOP") {
        Step::Respond(ok_responses())
    } else if chars_eq(verb, "RESET") {
        state.reset();
        Step::Respond(ok_responses())
    } else if chars_eq(verb, "BYE") {
        Step::Bye
    } else if chars_eq(verb, "OPTION") {
        let text = match &arg {
            Some(a) => {
                let t = chars_to_string(a.as_slice(), 0, a.len());
                assert(a@.subrange(0, a@.len() as int) =~= a@);
                t
            },
            None => String::new(),
        };
        let _ = handle_option(state, text.as_str());
        Step::Respond(ok_responses())
    } else if chars_eq(verb, "SETDESC") {
        state.desc = argument_text(&arg);
        Step::Respond(ok_responses())
    } else if chars_eq(verb, "SETPROMPT") {
        state.prompt = argument_text(&arg);
        Step::Respond(ok_responses())
    } else if chars_eq(verb, "SETTITLE") {
        state.title = argument_text(&arg);
        Step::Respond(ok_responses())
    } else if chars_eq(verb, "SETOK") {
        state.ok_button = argument_text(&arg);
        Step::Respond(ok_responses())
    } else if chars_eq(verb, "SETCANCEL") {
        state.cancel_button = argument_text(&arg);
        Step::Respond(ok_responses())
    } else if chars_eq(verb, "SETNOTOK") {
        state.notok_button = argument_text(&arg);
        state.notok_set = true;
        Step::Respond(ok_responses())
    } else if chars_eq(verb, "SETERROR") {
        state.error_text = argument_text(&arg);
        Step::Respond(ok_responses())
    } else if chars_eq(verb, "SETKEYINFO") {
        state.keyinfo = argument_text(&arg);
        Step::Respond(ok_responses())
    } else if chars_eq(verb, "SETREPEATOK") || chars_eq(verb, "SETREPEAT") {
        // The argument labels the repeat field; only the flag is kept.
        state.repeat_ok = true;
        Step::Respond(ok_responses())
    } else if chars_eq(verb, "CLEARPASSPHRASE") || chars_eq(verb, "SETQUALITYBAR") {
        // No passphrase is cached and no quality bar is shown: acknowledge.
        Step::Respond(ok_responses())
    } else if chars_eq(verb, "GETPIN") {
        Step::GetPin
    } else if chars_eq(verb, "CONFIRM") {
        let one_button = match &arg {
            Some(a) => {
                let (x, y) = trim_range(a.as_slice(), 0, a.len());
                assert(a@.subrange(0, a@.len() as int) =~= a@);
                let t = slice_chars(a.as_slice(), x, y);
                chars_eq(t.as_slice(), "--one-button")
            },
            None => false,
        };
        if one_button {
            state.one_button = true;
        }
        Step::Confirm
    } else if chars_eq(verb, "MESSAGE") {
        // A message is a confirmation dialog in one-button mode; the caller
        // restores the flag afterwards.
        let prev = state.one_button;
        state.one_button = true;
        Step::Message(prev)
    } else if chars_eq(verb, "GETINFO") {
        match &arg {
            Some(a) => handle_getinfo(a.as_slice()),
            None => {
                let empty: Vec<char> = Vec::new();
                handle_getinfo(empty.as_slice())
            },
        }
    } else if chars_eq(verb, "CANCEL") {
        // Cancels a pending INQUIRE; there is none, so just OK.
        Step::Respond(ok_responses())
    } else {
        Step::Respond(error_responses(GPG_ERR_ASS_UNKNOWN_CMD, gpg_error_string(GPG_ERR_ASS_UNKNOWN_CMD)))
    }
}

/// Processes one input line (as read, line ending included): updates the
/// session state and returns what to do next.
pub fn handle_line(state: &mut PinentryState, line: &str) -> (step: Step)
    ensures
        final(state)@ == line_step(old(state)@, line@).0,
        step@ == line_step(old(state)@, line@).1,
{
    let chars = str_chars(line);
    let mut end = chars.len();
    assert(chars@.take(end as int) =~= chars@);
    while end > 0 && (chars[end - 1] == '\r' || chars[end - 1] == '\n')
        invariant
            end <= chars@.len(),
            chars@ == line@,
            strip_line_end(chars@.take(end as int)) == strip_line_end(chars@),
            forall|j: int| end <= j < chars@.len() ==> chars@[j] == '\r' || chars@[j] == '\n',
        decreases end,
    {
        assert(chars@.take(end as int).drop_last() =~= chars@.take(end - 1));
        end -= 1;
    }
    let ghost l = chars@.take(end as int);
    assert(strip_line_end(l) == l);
    if end == 0 || chars[0] == '#' {
        let res: Vec<Response> = Vec::new();
        assert(responses_view(res@) =~= Seq::<ResponseModel>::empty());
        return Step::Respond(res);
    }
    proof {
        let tail = chars@.skip(end as int);
        assert(chars@ =~= l + tail);
        lemma_encode_utf8_concat(l, tail);
        assert(is_ascii_chars(tail));
        is_ascii_chars_encode_utf8(tail);
    }
    let byte_len = line.as_bytes().len() - (chars.len() - end);
    if byte_len > ASSUAN_LINELENGTH {
        return Step::Respond(error_responses(GPG_ERR_ASS_GENERAL, "line too long"));
    }
    match find_char(chars.as_slice(), 0, end, ' ') {
        Some(p) => {
            let verb = chars_to_upper(chars.as_slice(), 0, p);
            let (x, y) = trim_range(chars.as_slice(), p + 1, end);
            let arg = slice_chars(chars.as_slice(), x, y);
            proof {
                assert(chars@.subrange(0, end as int) =~= l);
                assert(chars@.subrange(0, p as int) =~= l.take(p as int));
                assert(chars@.subrange(p + 1, end as int) =~= l.skip(p + 1));
            }
            dispatch(state, verb.as_slice(), Some(arg))
        },
        None => {
            let verb = chars_to_upper(chars.as_slice(), 0, end);
            assert(chars@.subrange(0, end as int) =~= l);
            dispatch(state, verb.as_slice(), None)
        },
    }
}

/// The answer to GETPIN given the dialog's outcome: the passphrase as a data
/// line and `OK`, or the dialog's error code with its text.
pub open spec fn getpin_replies(outcome: Result<Seq<char>, u32>) -> Seq<ResponseModel> {
    match outcome {
        Ok(pin) => seq![ResponseModel::Data(pin), ResponseModel::Success],
        Err(code) => seq![error_reply(code)],
    }
}

/// The answer to CONFIRM given the dialog's outcome.
pub open spec fn confirm_replies(outcome: Result<bool, u32>) -> Seq<ResponseModel> {
    match outcome {
        Ok(true) => seq![ResponseModel::Success],
        Ok(false) => seq![ResponseModel::Failure(GPG_ERR_CANCELED, "canceled"@)],
        Err(code) => seq![error_reply(code)],
    }
}

/// The answer to MESSAGE given the dialog's outcome.
pub open spec fn message_replies(outcome: Result<bool, u32>) -> Seq<ResponseModel> {
    match outcome {
        Ok(_) => seq![ResponseModel::Success],
        Err(code) => seq![error_reply(code)],
    }
}

/// The characters of a dialog outcome that carries text.
pub open spec fn outcome_view(outcome: Result<&str, u32>) -> Result<Seq<char>, u32> {
    match outcome {
        Ok(s) => Ok(s@),
        Err(code) => Err(code),
    }
}

/// GETPIN, once the passphrase dialog has answered: the passphrase is sent as
/// a data line (an empty passphrase is valid), then `OK`.
pub fn handle_getpin(outcome: Result<&str, u32>) -> (res: Vec<Response>)
    ensures
        responses_view(res@) == getpin_replies(outcome_view(outcome)),
{
    match outcome {
        Ok(pin) => data_responses(pin),
        Err(code) => error_responses(code, gpg_error_string(code)),
    }
}

/// CONFIRM, once the confirmation dialog has answered.
pub fn handle_confirm(outcome: Result<bool, u32>) -> (res: Vec<Response>)
    ensures
        responses_view(res@) == confirm_replies(outcome),
{
    match outcome {
        Ok(true) => ok_responses(),
        Ok(false) => error_responses(GPG_ERR_CANCELED, "canceled"),
        Err(code) => error_responses(code, gpg_error_string(code)),
    }
}

/// MESSAGE, once the message dialog has answered: the one-button flag gets
/// back its value from before the command.
pub fn handle_message(state: &mut PinentryState, prev_one_button: bool, outcome: Result<bool, u32>) -> (res: Vec<Response>)
    ensures
        final(state)@ == (StateModel { one_button: prev_one_button, ..old(state)@ }),
        responses_view(res@) == message_replies(outcome),
{
    state.one_button = prev_one_button;
    match outcome {
        Ok(_) => ok_responses(),
        Err(code) => error_responses(code, gpg_error_string(code)),
    }
}

/// GETINFO pid, given this process's id: its decimal numeral as a data line,
/// then `OK`.
pub fn handle_pid(pid: u32) -> (res: Vec<Response>)
    ensures
        responses_view(res@) == seq![
            ResponseModel::Data(decimal_text(pid as nat)),
            ResponseModel::Success,
        ],
{
    let mut text = String::new();
    push_decimal(&mut text, pid);
    assert(text@ =~= decimal_text(pid as nat));
    data_responses(text.as_str())
}

/// `OK`, or `OK <comment>`.
pub open spec fn ok_line_text(comment: Seq<char>) -> Seq<char> {
    if comment.len() == 0 {
        "OK"@
    } else {
        "OK "@ + comment
    }
}

/// `ERR <code> <description>`, the code in decimal.
pub open spec fn err_line_text(code: u32, desc: Seq<char>) -> Seq<char> {
    "ERR "@ + decimal_text(code as nat) + " "@ + desc
}

/// `D <data>`, the data percent-encoded.
pub open spec fn data_line_text(data: Seq<char>) -> Seq<char> {
    "D "@ + percent_encoded_text(data)
}

/// The wire line (without its line feed) of a response.
pub open spec fn response_line_text(r: ResponseModel) -> Seq<char> {
    match r {
        ResponseModel::Success => ok_line_text(Seq::empty()),
        ResponseModel::Failure(code, message) => err_line_text(code, message),
        ResponseModel::Data(data) => data_line_text(data),
    }
}

/// The `OK` line, with an optional comment.
pub fn ok_line(comment: &str) -> (res: String)
    ensures
        res@ == ok_line_text(comment@),
{
    let mut line = String::new();
    if comment.is_empty() {
        push_str(&mut line, "OK");
    } else {
        push_str(&mut line, "OK ");
        push_str(&mut line, comment);
    }
    line
}

/// The `ERR` line for a code and its description.
pub fn err_line(code: u32, desc: &str) -> (res: String)
    ensures
        res@ == err_line_text(code, desc@),
{
    let mut line = String::new();
    push_str(&mut line, "ERR ");
    push_decimal(&mut line, code);
    push_str(&mut line, " ");
    push_str(&mut line, desc);
    line
}

/// The `D` line for a piece of data, percent-encoded.
pub fn data_line(data: &str) -> (res: String)
    ensures
        res@ == data_line_text(data@),
{
    let mut line = String::new();
    push_str(&mut line, "D ");
    let mut encoded = percent_encode(data);
    push_str(&mut line, encoded.as_str());
    // The data may be a passphrase: leave no copy of it behind.
    zeroize_string(&mut encoded);
    line
}

/// The wire line (without its line feed) of a response.
pub fn response_line(r: &Response) -> (res: String)
    ensures
        res@ == response_line_text(r@),
{
    match r {
        Response::Success => {
            let empty = String::new();
            ok_line(empty.as_str())
        },
        Response::Failure(e) => err_line(e.code, e.message.as_str()),
        Response::Data(d) => data_line(d.as_str()),
    }
}

/// An answer as Assuan wants it: data lines, then exactly one final `OK` or
/// `ERR`.
pub open spec fn is_complete_answer(rs: Seq<ResponseModel>) -> bool {
    &&& rs.len() >= 1
    &&& !(rs.last() is Data)
    &&& forall|i: int| 0 <= i < rs.len() - 1 ==> (#[trigger] rs[i]) is Data
}

/// The verbs the server knows (upper case).
pub open spec fn known_verb(verb: Seq<char>) -> bool {
    ||| verb == "NOP"@
    ||| verb == "RESET"@
    ||| verb == "BYE"@
    ||| verb == "OPTION"@
    ||| verb == "SETDESC"@
    ||| verb == "SETPROMPT"@
    ||| verb == "SETTITLE"@
    ||| verb == "SETOK"@
    ||| verb == "SETCANCEL"@
    ||| verb == "SETNOTOK"@
    ||| verb == "SETERROR"@
    ||| verb == "SETKEYINFO"@
    ||| verb == "SETREPEATOK"@
    ||| verb == "SETREPEAT"@
    ||| verb == "CLEARPASSPHRASE"@
    ||| verb == "SETQUALITYBAR"@
    ||| verb == "GETPIN"@
    ||| verb == "CONFIRM"@
    ||| verb == "MESSAGE"@
    ||| verb == "GETINFO"@
    ||| verb == "CANCEL"@
}

/// Every line is answered, except blank and comment lines, which get no
/// answer at all; an answer sent at once is complete: data lines and then
/// one `OK` or `ERR`. The other steps hand over to a dialog, to BYE, or to
/// the process id, each answered by a complete answer of its own.
pub proof fn lemma_every_line_answered(s: StateModel, line: Seq<char>)
    ensures
        ({
            let l = strip_line_end(line);
            let step = line_step(s, line).1;
            &&& (l.len() == 0 || l[0] == '#') ==> line_step(s, line) == (s, StepModel::Respond(
                Seq::empty(),
            ))
            &&& !(l.len() == 0 || l[0] == '#') ==> (step matches StepModel::Respond(rs)
                ==> is_complete_answer(rs))
        }),
{
    let l = strip_line_end(line);
    if !(l.len() == 0 || l[0] == '#') && encode_utf8(l).len() <= ASSUAN_LINELENGTH {
        let (verb, arg) = command_parts(l);
        let v = ascii_upper(verb);
        let a = match arg {
            Some(a) => a,
            None => Seq::empty(),
        };
        if v == "GETINFO"@ {
            lemma_getinfo_answered(a);
        }
    }
}

/// GETINFO is answered completely whenever it is answered at once.
proof fn lemma_getinfo_answered(sub: Seq<char>)
    ensures
        getinfo_step(sub) matches StepModel::Respond(rs) ==> is_complete_answer(rs),
{
}

/// The answers after a dialog, and after GETINFO pid, are complete.
pub proof fn lemma_dialog_answers_complete(
    pin: Result<Seq<char>, u32>,
    confirmed: Result<bool, u32>,
    pid: u32,
)
    ensures
        is_complete_answer(getpin_replies(pin)),
        is_complete_answer(confirm_replies(confirmed)),
        is_complete_answer(message_replies(confirmed)),
        is_complete_answer(seq![ResponseModel::Data(decimal_text(pid as nat)), ResponseModel::Success]),
{
}

/// An unknown verb is refused with `ERR` "unknown IPC command" and changes
/// nothing.
pub proof fn lemma_unknown_command_refused(s: StateModel, verb: Seq<char>, arg: Option<Seq<char>>)
    requires
        !known_verb(verb),
    ensures
        command_step(s, verb, arg) == (s, StepModel::Respond(
            seq![error_reply(GPG_ERR_ASS_UNKNOWN_CMD)],
        )),
{
}

/// OPTION is never refused, whatever the option (gpg-agent probes
/// capabilities with options it expects to be accepted).
pub proof fn lemma_option_never_refused(s: StateModel, arg: Option<Seq<char>>)
    ensures
        command_step(s, "OPTION"@, arg).1 == ok_step(),
{
    reveal_strlit("OPTION");
    reveal_strlit("NOP");
    reveal_strlit("RESET");
    reveal_strlit("BYE");
    assert("OPTION"@.len() != "NOP"@.len());
    assert("OPTION"@.len() != "RESET"@.len());
    assert("OPTION"@.len() != "BYE"@.len());
}

/// A line longer than the limit is refused with `ERR` "line too long" and
/// changes nothing.
pub proof fn lemma_long_line_refused(s: StateModel, line: Seq<char>)
    requires
        strip_line_end(line).len() > 0,
        strip_line_end(line)[0] != '#',
        encode_utf8(strip_line_end(line)).len() > ASSUAN_LINELENGTH,
    ensures
        line_step(s, line) == (s, StepModel::Respond(
            seq![ResponseModel::Failure(GPG_ERR_ASS_GENERAL, "line too long"@)],
        )),
{
}

/// RESET clears every dialog text and flag but keeps the options, `grab` and
/// `no-grab`; an option set before RESET is still there after it.
pub proof fn lemma_reset_keeps_options(s: StateModel, arg: Option<Seq<char>>)
    ensures
        ({
            let r = command_step(s, "RESET"@, arg).0;
            &&& r.options == s.options
            &&& r.grab == s.grab
            &&& r.no_grab == s.no_grab
            &&& r.desc.len() == 0 && r.prompt.len() == 0 && r.title.len() == 0
            &&& r.ok_button.len() == 0 && r.cancel_button.len() == 0 && r.notok_button.len() == 0
            &&& r.error_text.len() == 0 && r.keyinfo.len() == 0
            &&& !r.repeat_ok && !r.one_button && !r.notok_set
        }),
{
    reveal_strlit("RESET");
    reveal_strlit("NOP");
    assert("RESET"@.len() != "NOP"@.len());
}

/// A data line is always a single protocol line: whatever the data holds,
/// the `D` line carries no raw CR or LF.
pub proof fn lemma_data_line_single_line(data: Seq<char>)
    ensures
        forall|i: int|
            0 <= i < data_line_text(data).len() ==> #[trigger] data_line_text(data)[i] != '\r'
                && data_line_text(data)[i] != '\n',
{
    reveal_strlit("D ");
    let e = percent_encoded_text(data);
    lemma_percent_encoded_single_line(data);
    assert forall|i: int| 0 <= i < data_line_text(data).len() implies #[trigger] data_line_text(
        data,
    )[i] != '\r' && data_line_text(data)[i] != '\n' by {
        if i >= 2 {
            assert(data_line_text(data)[i] == e[i - 2]);
        }
    }
}

/// MESSAGE shows its dialog in one-button mode and, once answered, leaves
/// the state as it was before the command.
pub proof fn lemma_message_restores_state(s: StateModel, arg: Option<Seq<char>>)
    ensures
        ({
            let (during, step) = command_step(s, "MESSAGE"@, arg);
            &&& step == StepModel::Message(s.one_button)
            &&& during.one_button
            &&& (StateModel { one_button: s.one_button, ..during }) == s
        }),
{
    reveal_strlit("MESSAGE");
    reveal_strlit("NOP");
    reveal_strlit("RESET");
    reveal_strlit("BYE");
    reveal_strlit("OPTION");
    reveal_strlit("SETDESC");
    reveal_strlit("SETPROMPT");
    reveal_strlit("SETTITLE");
    reveal_strlit("SETOK");
    reveal_strlit("SETCANCEL");
    reveal_strlit("SETNOTOK");
    reveal_strlit("SETERROR");
    reveal_strlit("SETKEYINFO");
    reveal_strlit("SETREPEATOK");
    reveal_strlit("SETREPEAT");
    reveal_strlit("CLEARPASSPHRASE");
    reveal_strlit("SETQUALITYBAR");
    reveal_strlit("GETPIN");
    reveal_strlit("CONFIRM");
    let m = "MESSAGE"@;
    assert(m.len() == 7 && m[0] == 'M');
    assert("NOP"@.len() == 3 && "RESET"@.len() == 5 && "BYE"@.len() == 3);
    assert("OPTION"@.len() == 6 && "SETDESC"@[0] == 'S' && "SETPROMPT"@.len() == 9);
    assert("SETTITLE"@.len() == 8 && "SETOK"@.len() == 5 && "SETCANCEL"@.len() == 9);
    assert("SETNOTOK"@.len() == 8 && "SETERROR"@.len() == 8 && "SETKEYINFO"@.len() == 10);
    assert("SETREPEATOK"@.len() == 11 && "GETPIN"@.len() == 6 && "CONFIRM"@[0] == 'C');
    assert("SETREPEAT"@.len() == 9 && "CLEARPASSPHRASE"@.len() == 15);
    assert("SETQUALITYBAR"@.len() == 13);
    let (during, step) = command_step(s, m, arg);
    assert((StateModel { one_button: s.one_button, ..during }) =~= s);
}

/// The verbs that may change the session state (upper case).
pub open spec fn changes_state(verb: Seq<char>) -> bool {
    ||| verb == "RESET"@
    ||| verb == "OPTION"@
    ||| verb == "SETDESC"@
    ||| verb == "SETPROMPT"@
    ||| verb == "SETTITLE"@
    ||| verb == "SETOK"@
    ||| verb == "SETCANCEL"@
    ||| verb == "SETNOTOK"@
    ||| verb == "SETERROR"@
    ||| verb == "SETKEYINFO"@
    ||| verb == "SETREPEATOK"@
    ||| verb == "SETREPEAT"@
    ||| verb == "CONFIRM"@
    ||| verb == "MESSAGE"@
}

/// Only RESET, OPTION, the SET* commands, CONFIRM and MESSAGE touch the
/// session state; every other line (queries, BYE, GETPIN, unknown verbs,
/// blank, comment and over-long lines) leaves it as it was.
pub proof fn lemma_other_lines_keep_state(s: StateModel, line: Seq<char>)
    ensures
        ({
            let l = strip_line_end(line);
            let verb = ascii_upper(command_parts(l).0);
            (l.len() == 0 || l[0] == '#' || encode_utf8(l).len() > ASSUAN_LINELENGTH
                || !changes_state(verb)) ==> line_step(s, line).0 == s
        }),
{
}

/// Overwrites a text that held a secret (such as a `D` line carrying the
/// passphrase) with zeros and leaves it empty.
pub fn wipe_text(s: &mut String)
    ensures
        final(s)@ == Seq::<char>::empty(),
{
    zeroize_string(s);
}

/// Discards a list of responses, overwriting the text of every data line
/// (which may hold the passphrase) with zeros first.
pub fn wipe_responses(rs: &mut Vec<Response>)
    ensures
        final(rs)@.len() == 0,
{
    while rs.len() > 0
        invariant
            true,
        decreases rs@.len(),
    {
        match rs.pop() {
            Some(Response::Data(mut d)) => zeroize_string(&mut d),
            _ => {},
        }
    }
}

/// Distinguishes the verb literals that come before GETPIN in
/// [`command_step`].
proof fn lemma_set_verbs_distinct()
    ensures
        "NOP"@.len() == 3 && "BYE"@.len() == 3 && "OPTION"@.len() == 6,
        "RESET"@.len() == 5 && "RESET"@[0] == 'R',
        "SETDESC"@.len() == 7,
        "SETPROMPT"@.len() == 9 && "SETPROMPT"@[3] == 'P',
        "SETTITLE"@.len() == 8 && "SETTITLE"@[3] == 'T',
        "SETOK"@.len() == 5 && "SETOK"@[0] == 'S',
        "SETCANCEL"@.len() == 9 && "SETCANCEL"@[3] == 'C',
        "SETNOTOK"@.len() == 8 && "SETNOTOK"@[3] == 'N',
        "SETERROR"@.len() == 8 && "SETERROR"@[3] == 'E',
        "SETKEYINFO"@.len() == 10,
{
    reveal_strlit("NOP");
    reveal_strlit("RESET");
    reveal_strlit("BYE");
    reveal_strlit("OPTION");
    reveal_strlit("SETDESC");
    reveal_strlit("SETPROMPT");
    reveal_strlit("SETTITLE");
    reveal_strlit("SETOK");
    reveal_strlit("SETCANCEL");
    reveal_strlit("SETNOTOK");
    reveal_strlit("SETERROR");
    reveal_strlit("SETKEYINFO");
}

/// Every SET* text command stores its argument percent-decoded and read as
/// UTF-8 (an absent argument counts as empty), in its own field, and is
/// answered `OK`: `SETDESC`, `SETPROMPT`, `SETTITLE`, `SETOK`, `SETCANCEL`,
/// `SETNOTOK`, `SETERROR` and `SETKEYINFO`.
pub proof fn lemma_set_commands_store_decoded_text(s: StateModel, a: Seq<char>)
    ensures
        ({
            let t = utf8_lossy(percent_decoded(encode_utf8(a)));
            &&& command_step(s, "SETDESC"@, Some(a)).0.desc == t
            &&& command_step(s, "SETPROMPT"@, Some(a)).0.prompt == t
            &&& command_step(s, "SETTITLE"@, Some(a)).0.title == t
            &&& command_step(s, "SETOK"@, Some(a)).0.ok_button == t
            &&& command_step(s, "SETCANCEL"@, Some(a)).0.cancel_button == t
            &&& command_step(s, "SETNOTOK"@, Some(a)).0.notok_button == t
            &&& command_step(s, "SETERROR"@, Some(a)).0.error_text == t
            &&& command_step(s, "SETKEYINFO"@, Some(a)).0.keyinfo == t
            &&& command_step(s, "SETDESC"@, Some(a)).1 == ok_step()
            &&& command_step(s, "SETERROR"@, Some(a)).1 == ok_step()
            &&& command_step(s, "SETERROR"@, Some(a)).0.desc == s.desc
            &&& command_step(s, "SETDESC"@, Some(a)).0.error_text == s.error_text
        }),
        command_step(s, "SETERROR"@, None).0.error_text == utf8_lossy(
            percent_decoded(Seq::<u8>::empty()),
        ),
{
    lemma_set_verbs_distinct();
    assert(encode_utf8(Seq::<char>::empty()) =~= Seq::<u8>::empty());
}

} // verus!
