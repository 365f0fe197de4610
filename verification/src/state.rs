//! The session state that SET* and OPTION commands accumulate.

use vstd::prelude::*;
use zeroize::Zeroize;
use crate::error::CommandResult;
use crate::text::str_eq;

verus! {

/// The abstract content of a [`PinentryState`]: every text field as its
/// characters, the flags, and the stored options as a map from name to value.
#[verifier::ext_equal]
pub struct StateModel {
    pub desc: Seq<char>,
    pub prompt: Seq<char>,
    pub title: Seq<char>,
    pub ok_button: Seq<char>,
    pub cancel_button: Seq<char>,
    pub notok_button: Seq<char>,
    pub error_text: Seq<char>,
    pub keyinfo: Seq<char>,
    pub repeat_ok: bool,
    pub one_button: bool,
    pub notok_set: bool,
    pub grab: bool,
    pub no_grab: bool,
    pub options: Map<Seq<char>, Seq<char>>,
}

/// The options held by a list of name/value pairs; a later pair for the same
/// name takes the place of an earlier one.
pub open spec fn options_map(pairs: Seq<(String, String)>) -> Map<Seq<char>, Seq<char>>
    decreases pairs.len(),
{
    if pairs.len() == 0 {
        Map::empty()
    } else {
        options_map(pairs.drop_last()).insert(pairs.last().0@, pairs.last().1@)
    }
}

/// All mutable state accumulated by SET* and OPTION commands.
///
/// Dialog-specific fields are cleared by `reset()`; option state (grab,
/// no_grab, options) persists across RESET because gpg-agent sets options
/// once at session start.
#[derive(Debug)]
pub struct PinentryState {
    // SET* fields, cleared by reset()
    pub desc: String,
    pub prompt: String,
    pub title: String,
    pub ok_button: String,
    pub cancel_button: String,
    pub notok_button: String,
    pub error_text: String,
    pub keyinfo: String,
    pub repeat_ok: bool,
    pub one_button: bool,
    pub notok_set: bool,
    // OPTION fields, kept across RESET
    pub grab: bool,
    pub no_grab: bool,
    /// Options as name/value pairs; setting a name again replaces its value.
    pub options: Vec<(String, String)>,
}

impl View for PinentryState {
    type V = StateModel;

    open spec fn view(&self) -> StateModel {
        StateModel {
            desc: self.desc@,
            prompt: self.prompt@,
            title: self.title@,
            ok_button: self.ok_button@,
            cancel_button: self.cancel_button@,
            notok_button: self.notok_button@,
            error_text: self.error_text@,
            keyinfo: self.keyinfo@,
            repeat_ok: self.repeat_ok,
            one_button: self.one_button,
            notok_set: self.notok_set,
            grab: self.grab,
            no_grab: self.no_grab,
            options: options_map(self.options@),
        }
    }
}

/// The state of a fresh session: every text empty, every flag off, no options.
pub open spec fn initial_model() -> StateModel {
    StateModel {
        desc: Seq::empty(),
        prompt: Seq::empty(),
        title: Seq::empty(),
        ok_button: Seq::empty(),
        cancel_button: Seq::empty(),
        notok_button: Seq::empty(),
        error_text: Seq::empty(),
        keyinfo: Seq::empty(),
        repeat_ok: false,
        one_button: false,
        notok_set: false,
        grab: false,
        no_grab: false,
        options: Map::empty(),
    }
}

/// RESET: the dialog fields go back to their initial values; `grab`,
/// `no_grab` and the options stay.
pub open spec fn reset_model(s: StateModel) -> StateModel {
    StateModel {
        desc: Seq::empty(),
        prompt: Seq::empty(),
        title: Seq::empty(),
        ok_button: Seq::empty(),
        cancel_button: Seq::empty(),
        notok_button: Seq::empty(),
        error_text: Seq::empty(),
        keyinfo: Seq::empty(),
        repeat_ok: false,
        one_button: false,
        notok_set: false,
        ..s
    }
}

/// OPTION name[=value]: `grab` and `no-grab` set their flags; the
/// `default-*` options fill the matching label only while it is unset and a
/// value is given; any other option is stored (with an empty value when none
/// is given), replacing an earlier value of the same name.
pub open spec fn option_applied(s: StateModel, name: Seq<char>, value: Option<Seq<char>>) -> StateModel {
    if name == "grab"@ {
        StateModel { grab: true, ..s }
    } else if name == "no-grab"@ {
        StateModel { no_grab: true, ..s }
    } else if name == "default-ok"@ || name == "default-yes"@ {
        if value is Some && s.ok_button.len() == 0 {
            StateModel { ok_button: value.unwrap(), ..s }
        } else {
            s
        }
    } else if name == "default-cancel"@ || name == "default-no"@ {
        if value is Some && s.cancel_button.len() == 0 {
            StateModel { cancel_button: value.unwrap(), ..s }
        } else {
            s
        }
    } else if name == "default-prompt"@ {
        if value is Some && s.prompt.len() == 0 {
            StateModel { prompt: value.unwrap(), ..s }
        } else {
            s
        }
    } else {
        StateModel {
            options: s.options.insert(
                name,
                match value {
                    Some(v) => v,
                    None => Seq::empty(),
                },
            ),
            ..s
        }
    }
}

/// The characters of an optional `str`.
pub open spec fn opt_str_view(value: Option<&str>) -> Option<Seq<char>> {
    match value {
        Some(v) => Some(v@),
        None => None,
    }
}

/// A name is among the stored options exactly when some pair carries it.
proof fn lemma_options_map_dom(pairs: Seq<(String, String)>, name: Seq<char>)
    ensures
        options_map(pairs).dom().contains(name) <==> exists|j: int|
            0 <= j < pairs.len() && (#[trigger] pairs[j]).0@ == name,
    decreases pairs.len(),
{
    if pairs.len() > 0 {
        let init = pairs.drop_last();
        lemma_options_map_dom(init, name);
        if exists|j: int| 0 <= j < init.len() && (#[trigger] init[j]).0@ == name {
            let j = choose|j: int| 0 <= j < init.len() && (#[trigger] init[j]).0@ == name;
            assert(pairs[j] == init[j]);
        }
        if exists|j: int| 0 <= j < pairs.len() && (#[trigger] pairs[j]).0@ == name {
            let j = choose|j: int| 0 <= j < pairs.len() && (#[trigger] pairs[j]).0@ == name;
            if j < pairs.len() - 1 {
                assert(init[j] == pairs[j]);
            }
        }
    }
}

/// Giving every pair named `name` the value `value` stores `value` under
/// `name` when the name was present, and changes nothing otherwise.
proof fn lemma_options_map_set_all(
    old_pairs: Seq<(String, String)>,
    new_pairs: Seq<(String, String)>,
    name: Seq<char>,
    value: Seq<char>,
)
    requires
        new_pairs.len() == old_pairs.len(),
        forall|j: int|
            0 <= j < old_pairs.len() ==> if (#[trigger] old_pairs[j]).0@ == name {
                new_pairs[j].0@ == name && new_pairs[j].1@ == value
            } else {
                new_pairs[j] == old_pairs[j]
            },
    ensures
        options_map(new_pairs) == if options_map(old_pairs).dom().contains(name) {
            options_map(old_pairs).insert(name, value)
        } else {
            options_map(old_pairs)
        },
    decreases old_pairs.len(),
{
    if old_pairs.len() > 0 {
        let oi = old_pairs.drop_last();
        let ni = new_pairs.drop_last();
        assert forall|j: int| 0 <= j < oi.len() implies if (#[trigger] oi[j]).0@ == name {
            ni[j].0@ == name && ni[j].1@ == value
        } else {
            ni[j] == oi[j]
        } by {
            assert(oi[j] == old_pairs[j]);
            assert(ni[j] == new_pairs[j]);
        }
        lemma_options_map_set_all(oi, ni, name, value);
        let last = old_pairs.len() - 1;
        assert(old_pairs[last] == old_pairs.last());
        if old_pairs.last().0@ == name {
            assert(options_map(new_pairs) =~= options_map(old_pairs).insert(name, value));
        } else {
            assert(new_pairs.last() == old_pairs.last());
            if options_map(oi).dom().contains(name) {
                assert(options_map(new_pairs) =~= options_map(old_pairs).insert(name, value));
            } else {
                assert(options_map(new_pairs) =~= options_map(old_pairs));
            }
        }
    }
}

/// Wraps `zeroize::Zeroize::zeroize` on a `String`: the bytes are
/// overwritten with zeros and the string is left empty.
#[verifier::external_body]
pub(crate) fn zeroize_string(s: &mut String)
    ensures
        final(s)@ == Seq::<char>::empty(),
{
    s.zeroize();
}

/// Stores `value` under `name` in a list of option pairs, replacing an
/// earlier value of that name.
fn store_option(options: &mut Vec<(String, String)>, name: &str, value: &str)
    ensures
        options_map(final(options)@) == options_map(old(options)@).insert(name@, value@),
{
    let ghost old_pairs = options@;
    let mut found = false;
    let mut i: usize = 0;
    while i < options.len()
        invariant
            i <= options@.len(),
            options@.len() == old_pairs.len(),
            found <==> exists|j: int| 0 <= j < i && (#[trigger] old_pairs[j]).0@ == name@,
            forall|j: int|
                0 <= j < i ==> if (#[trigger] old_pairs[j]).0@ == name@ {
                    options@[j].0@ == name@ && options@[j].1@ == value@
                } else {
                    options@[j] == old_pairs[j]
                },
            forall|j: int| i <= j < old_pairs.len() ==> options@[j] == old_pairs[j],
        decreases old_pairs.len() - i,
    {
        if str_eq(options[i].0.as_str(), name) {
            let key = options[i].0.clone();
            options.set(i, (key, value.to_owned()));
            found = true;
            assert(old_pairs[i as int].0@ == name@);
        } else {
            assert forall|j: int| 0 <= j < i + 1 && (#[trigger] old_pairs[j]).0@ == name@ implies j
                < i by {}
        }
        i += 1;
    }
    proof {
        lemma_options_map_set_all(old_pairs, options@, name@, value@);
        lemma_options_map_dom(old_pairs, name@);
    }
    if !found {
        let ghost before = options@;
        options.push((name.to_owned(), value.to_owned()));
        assert(options@.drop_last() =~= before);
    }
}

impl PinentryState {
    /// A fresh session state: every text empty, every flag off, no options.
    pub fn new() -> (res: Self)
        ensures
            res@ == initial_model(),
    {
        PinentryState {
            desc: String::new(),
            prompt: String::new(),
            title: String::new(),
            ok_button: String::new(),
            cancel_button: String::new(),
            notok_button: String::new(),
            error_text: String::new(),
            keyinfo: String::new(),
            repeat_ok: false,
            one_button: false,
            notok_set: false,
            grab: false,
            no_grab: false,
            options: Vec::new(),
        }
    }

    /// Clear all dialog-specific state to defaults, zeroing the old texts.
    /// Option state (grab / no_grab / options) is intentionally preserved
    /// because gpg-agent sends OPTION once per session, before any dialog.
    pub fn reset(&mut self)
        ensures
            final(self)@ == reset_model(old(self)@),
            final(self).options == old(self).options,
    {
        zeroize_string(&mut self.desc);
        zeroize_string(&mut self.prompt);
        zeroize_string(&mut self.title);
        zeroize_string(&mut self.ok_button);
        zeroize_string(&mut self.cancel_button);
        zeroize_string(&mut self.notok_button);
        zeroize_string(&mut self.error_text);
        zeroize_string(&mut self.keyinfo);
        self.repeat_ok = false;
        self.one_button = false;
        self.notok_set = false;
    }

    /// Handle an OPTION command.
    ///
    /// Unknown option names MUST return Ok(()): gpg-agent probes capabilities
    /// by firing options and expecting OK for anything it doesn't know about.
    pub fn apply_option(&mut self, name: &str, value: Option<&str>) -> (res: CommandResult)
        ensures
            (res is Ok),
            final(self)@ == option_applied(old(self)@, name@, opt_str_view(value)),
    {
        if str_eq(name, "grab") {
            self.grab = true;
        } else if str_eq(name, "no-grab") {
            self.no_grab = true;
        } else if str_eq(name, "default-ok") || str_eq(name, "default-yes") {
            // Per-dialog text overrides sent via OPTION before the first dialog
            if let Some(v) = value {
                if self.ok_button.as_str().is_empty() {
                    self.ok_button = v.to_owned();
                }
            }
        } else if str_eq(name, "default-cancel") || str_eq(name, "default-no") {
            if let Some(v) = value {
                if self.cancel_button.as_str().is_empty() {
                    self.cancel_button = v.to_owned();
                }
            }
        } else if str_eq(name, "default-prompt") {
            if let Some(v) = value {
                if self.prompt.as_str().is_empty() {
                    self.prompt = v.to_owned();
                }
            }
        } else {
            // Known no-op options (ttyname, lc-ctype, ...) and unknown ones
            // alike are stored so that they are never refused.
            let v = match value {
                Some(v) => v,
                None => {
                    proof {
                        reveal_strlit("");
                    }
                    ""
                },
            };
            assert(v@ == (match opt_str_view(value) {
                Some(x) => x,
                None => Seq::<char>::empty(),
            }));
            store_option(&mut self.options, name, v);
            assert(self@ =~= option_applied(old(self)@, name@, opt_str_view(value)));
        }
        Ok(())
    }

    // --- Display helpers with sensible fallbacks ---

    pub fn title_str(&self) -> (res: &str)
        ensures
            res@ == if self.title@.len() == 0 { "Enter Passphrase"@ } else { self.title@ },
    {
        if self.title.as_str().is_empty() {
            "Enter Passphrase"
        } else {
            self.title.as_str()
        }
    }

    pub fn prompt_str(&self) -> (res: &str)
        ensures
            res@ == if self.prompt@.len() == 0 { "PIN:"@ } else { self.prompt@ },
    {
        if self.prompt.as_str().is_empty() {
            "PIN:"
        } else {
            self.prompt.as_str()
        }
    }

    pub fn ok_str(&self) -> (res: &str)
        ensures
            res@ == if self.ok_button@.len() == 0 { "OK"@ } else { self.ok_button@ },
    {
        if self.ok_button.as_str().is_empty() {
            "OK"
        } else {
            self.ok_button.as_str()
        }
    }

    pub fn cancel_str(&self) -> (res: &str)
        ensures
            res@ == if self.cancel_button@.len() == 0 { "Cancel"@ } else { self.cancel_button@ },
    {
        if self.cancel_button.as_str().is_empty() {
            "Cancel"
        } else {
            self.cancel_button.as_str()
        }
    }

    pub fn notok_str(&self) -> (res: &str)
        ensures
            res@ == if self.notok_button@.len() == 0 { "No"@ } else { self.notok_button@ },
    {
        if self.notok_button.as_str().is_empty() {
            "No"
        } else {
            self.notok_button.as_str()
        }
    }

    /// Returns `Some(&str)` when a description has been set, `None` otherwise.
    pub fn desc_str(&self) -> (res: Option<&str>)
        ensures
            opt_str_view(res) == if self.desc@.len() == 0 { None } else { Some(self.desc@) },
    {
        if self.desc.as_str().is_empty() {
            None
        } else {
            Some(self.desc.as_str())
        }
    }

    /// Returns `Some(&str)` when an error message has been set, `None` otherwise.
    pub fn error_str(&self) -> (res: Option<&str>)
        ensures
            opt_str_view(res) == if self.error_text@.len() == 0 {
                None
            } else {
                Some(self.error_text@)
            },
    {
        if self.error_text.as_str().is_empty() {
            None
        } else {
            Some(self.error_text.as_str())
        }
    }
}

impl Default for PinentryState {
    fn default() -> (res: Self)
        ensures
            res@ == initial_model(),
    {
        PinentryState::new()
    }
}

/// The `default-*` options only fill a label that is still unset: with a
/// value, `default-ok` / `default-yes` set the OK label, `default-cancel` /
/// `default-no` the Cancel label and `default-prompt` the prompt, each only
/// when that text is empty; a label already set stays as it is, and without
/// a value nothing changes. The other texts and flags are never touched.
pub proof fn lemma_default_options_fill_only_unset_labels(s: StateModel, v: Seq<char>)
    ensures
        option_applied(s, "default-ok"@, Some(v)).ok_button == (if s.ok_button.len() == 0 {
            v
        } else {
            s.ok_button
        }),
        option_applied(s, "default-yes"@, Some(v)).ok_button == (if s.ok_button.len() == 0 {
            v
        } else {
            s.ok_button
        }),
        option_applied(s, "default-cancel"@, Some(v)).cancel_button == (if s.cancel_button.len()
            == 0 {
            v
        } else {
            s.cancel_button
        }),
        option_applied(s, "default-no"@, Some(v)).cancel_button == (if s.cancel_button.len() == 0 {
            v
        } else {
            s.cancel_button
        }),
        option_applied(s, "default-prompt"@, Some(v)).prompt == (if s.prompt.len() == 0 {
            v
        } else {
            s.prompt
        }),
        option_applied(s, "default-ok"@, Some(v)).cancel_button == s.cancel_button,
        option_applied(s, "default-yes"@, Some(v)).prompt == s.prompt,
        option_applied(s, "default-cancel"@, Some(v)).ok_button == s.ok_button,
        option_applied(s, "default-no"@, Some(v)).prompt == s.prompt,
        option_applied(s, "default-prompt"@, Some(v)).cancel_button == s.cancel_button,
        option_applied(s, "default-ok"@, None) == s,
        option_applied(s, "default-yes"@, None) == s,
        option_applied(s, "default-cancel"@, None) == s,
        option_applied(s, "default-no"@, None) == s,
        option_applied(s, "default-prompt"@, None) == s,
{
    reveal_strlit("grab");
    reveal_strlit("no-grab");
    reveal_strlit("default-ok");
    reveal_strlit("default-yes");
    reveal_strlit("default-cancel");
    reveal_strlit("default-no");
    reveal_strlit("default-prompt");
    assert("grab"@.len() == 4 && "no-grab"@.len() == 7 && "default-yes"@.len() == 11);
    assert("default-ok"@.len() == 10 && "default-ok"@[8] == 'o');
    assert("default-no"@.len() == 10 && "default-no"@[8] == 'n');
    assert("default-cancel"@.len() == 14 && "default-cancel"@[8] == 'c');
    assert("default-prompt"@.len() == 14 && "default-prompt"@[8] == 'p');
}

/// gpg-agent's usual start of a session: once `default-cancel` has set the
/// Cancel label, a later `default-no` leaves it as it is.
pub proof fn lemma_first_default_label_wins(s: StateModel, cancel: Seq<char>, no: Seq<char>)
    requires
        s.cancel_button.len() == 0,
        cancel.len() > 0,
    ensures
        option_applied(option_applied(s, "default-cancel"@, Some(cancel)), "default-no"@, Some(no)).cancel_button
            == cancel,
{
    lemma_default_options_fill_only_unset_labels(s, cancel);
    lemma_default_options_fill_only_unset_labels(option_applied(s, "default-cancel"@, Some(cancel)), no);
}

} // verus!
