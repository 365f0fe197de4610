//! What the Win32 dialogs show and where their controls go: the dialog
//! content derived from the session state, the DPI-scaled layout, and the
//! outcome of a finished dialog. Creating windows is left to the caller.

use vstd::prelude::*;
use crate::error::{GPG_ERR_CANCELED, GPG_ERR_NOT_CONFIRMED};
use crate::state::{PinentryState, StateModel};
use crate::text::{chars_to_string, str_chars};

verus! {

// Control IDs
/// The OK button (IDOK).
pub const BTN_OK: i32 = 1;

/// The Cancel button (IDCANCEL).
pub const BTN_CANCEL: i32 = 2;

/// The "No" button.
pub const BTN_NOTOK: i32 = 10;

/// The passphrase edit control.
pub const EDIT_PIN: i32 = 100;

/// The description label.
pub const STATIC_DESC: i32 = 101;

/// The error label.
pub const STATIC_ERROR: i32 = 102;

/// The prompt label.
pub const STATIC_PROMPT: i32 = 103;

/// Which dialog is shown.
#[derive(Clone, Copy, Debug, PartialEq, Eq, Structural)]
pub enum DialogMode {
    GetPin,
    Confirm,
    Message,
}

/// Everything a dialog shows, as text.
pub struct DialogContent {
    pub mode: DialogMode,
    pub title: String,
    pub desc: String,
    pub error: String,
    pub prompt: String,
    pub ok_label: String,
    pub cancel_label: String,
    pub notok_label: String,
    pub has_desc: bool,
    pub has_error: bool,
    pub has_notok: bool,
    pub one_button: bool,
}

/// `s` without its leading underscores.
pub open spec fn strip_underscores(s: Seq<char>) -> Seq<char>
    decreases s.len(),
{
    if s.len() > 0 && s[0] == '_' {
        strip_underscores(s.drop_first())
    } else {
        s
    }
}

/// `text` if set, else the fallback.
pub open spec fn or_default(text: Seq<char>, fallback: Seq<char>) -> Seq<char> {
    if text.len() == 0 {
        fallback
    } else {
        text
    }
}

/// A button label: GTK marks accelerators with `_`, Win32 with `&`, so the
/// leading underscores of gpg-agent's "_OK" / "_Cancel" are dropped.
pub fn button_label(s: &str) -> (res: String)
    ensures
        res@ == strip_underscores(s@),
{
    let v = str_chars(s);
    let mut i: usize = 0;
    assert(v@.skip(0) =~= v@);
    while i < v.len() && v[i] == '_'
        invariant
            v@ == s@,
            i <= v@.len(),
            strip_underscores(v@.skip(i as int)) == strip_underscores(v@),
        decreases v.len() - i,
    {
        assert(v@.skip(i as int).drop_first() =~= v@.skip(i + 1));
        i += 1;
    }
    let res = chars_to_string(v.as_slice(), i, v.len());
    assert(v@.subrange(i as int, v@.len() as int) =~= v@.skip(i as int));
    res
}

/// What the passphrase dialog shows for a state.
pub fn getpin_content(state: &PinentryState) -> (res: DialogContent)
    ensures
        res.mode == DialogMode::GetPin,
        res.title@ == or_default(state@.title, "Enter Passphrase"@),
        res.desc@ == state@.desc,
        res.error@ == state@.error_text,
        res.prompt@ == or_default(state@.prompt, "PIN:"@),
        res.ok_label@ == strip_underscores(or_default(state@.ok_button, "OK"@)),
        res.cancel_label@ == strip_underscores(or_default(state@.cancel_button, "Cancel"@)),
        res.notok_label@ == strip_underscores(or_default(state@.notok_button, "No"@)),
        res.has_desc == (state@.desc.len() > 0),
        res.has_error == (state@.error_text.len() > 0),
        !res.has_notok,
        !res.one_button,
{
    DialogContent {
        mode: DialogMode::GetPin,
        title: state.title_str().to_owned(),
        desc: state.desc.clone(),
        error: state.error_text.clone(),
        prompt: state.prompt_str().to_owned(),
        ok_label: button_label(state.ok_str()),
        cancel_label: button_label(state.cancel_str()),
        notok_label: button_label(state.notok_str()),
        has_desc: state.desc_str().is_some(),
        has_error: state.error_str().is_some(),
        has_notok: false,
        one_button: false,
    }
}

/// The description a confirmation or message dialog shows: the description
/// if set; else, with a single button, the prompt; else nothing.
pub open spec fn confirm_desc(s: StateModel) -> Seq<char> {
    if s.desc.len() > 0 {
        s.desc
    } else if s.one_button {
        or_default(s.prompt, "PIN:"@)
    } else {
        Seq::empty()
    }
}

/// What the confirmation dialog (or, in one-button mode, the message
/// dialog) shows for a state.
pub fn confirm_content(state: &PinentryState) -> (res: DialogContent)
    ensures
        res.mode == if state@.one_button { DialogMode::Message } else { DialogMode::Confirm },
        res.title@ == or_default(state@.title, "Enter Passphrase"@),
        res.desc@ == confirm_desc(state@),
        res.error@ == state@.error_text,
        res.prompt@ == or_default(state@.prompt, "PIN:"@),
        res.ok_label@ == strip_underscores(or_default(state@.ok_button, "OK"@)),
        res.cancel_label@ == strip_underscores(or_default(state@.cancel_button, "Cancel"@)),
        res.notok_label@ == strip_underscores(or_default(state@.notok_button, "No"@)),
        res.has_desc == (state@.desc.len() > 0 || state@.one_button),
        res.has_error == (state@.error_text.len() > 0),
        res.has_notok == state@.notok_set,
        res.one_button == state@.one_button,
{
    let mode = if state.one_button {
        DialogMode::Message
    } else {
        DialogMode::Confirm
    };
    let desc = match state.desc_str() {
        Some(d) => d.to_owned(),
        None => if state.one_button {
            state.prompt_str().to_owned()
        } else {
            String::new()
        },
    };
    DialogContent {
        mode,
        title: state.title_str().to_owned(),
        desc,
        error: state.error_text.clone(),
        prompt: state.prompt_str().to_owned(),
        ok_label: button_label(state.ok_str()),
        cancel_label: button_label(state.cancel_str()),
        notok_label: button_label(state.notok_str()),
        has_desc: state.desc_str().is_some() || state.one_button,
        has_error: state.error_str().is_some(),
        has_notok: state.notok_set,
        one_button: state.one_button,
    }
}

/// The passphrase dialog's result: canceled when the dialog could not be
/// shown or the user canceled it; otherwise the typed passphrase stands.
pub fn getpin_result(shown: bool, canceled: bool) -> (res: Result<(), u32>)
    ensures
        res == if shown && !canceled { Ok::<(), u32>(()) } else { Err(GPG_ERR_CANCELED) },
{
    if !shown || canceled {
        Err(GPG_ERR_CANCELED)
    } else {
        Ok(())
    }
}

/// The confirmation dialog's result: canceled when it could not be shown,
/// not confirmed when the user declined, confirmed otherwise.
pub fn confirm_result(shown: bool, canceled: bool) -> (res: Result<bool, u32>)
    ensures
        res == if !shown {
            Err(GPG_ERR_CANCELED)
        } else if canceled {
            Err(GPG_ERR_NOT_CONFIRMED)
        } else {
            Ok::<bool, u32>(true)
        },
{
    if !shown {
        Err(GPG_ERR_CANCELED)
    } else if canceled {
        Err(GPG_ERR_NOT_CONFIRMED)
    } else {
        Ok(true)
    }
}

/// The number of UTF-16 units before the first 0 (all of them if none is 0).
pub open spec fn wide_text_len(buf: Seq<u16>) -> nat
    decreases buf.len(),
{
    if buf.len() == 0 || buf[0] == 0 {
        0
    } else {
        1 + wide_text_len(buf.skip(1))
    }
}

/// The length of a NUL-terminated UTF-16 buffer: the index of its first 0,
/// or its whole length when there is none.
pub fn wlen(buf: &[u16]) -> (res: usize)
    ensures
        res == wide_text_len(buf@),
        res <= buf@.len(),
        forall|i: int| 0 <= i < res ==> buf@[i] != 0,
        res < buf@.len() ==> buf@[res as int] == 0,
{
    let ghost all = buf@;
    let mut i: usize = 0;
    assert(all.skip(0) =~= all);
    while i < buf.len() && buf[i] != 0
        invariant
            all == buf@,
            i <= buf@.len(),
            forall|j: int| 0 <= j < i ==> buf@[j] != 0,
            wide_text_len(all) == i + wide_text_len(all.skip(i as int)),
        decreases buf.len() - i,
    {
        assert(all.skip(i as int).skip(1) =~= all.skip(i + 1));
        i += 1;
    }
    i
}

/// What `String::from_utf16_lossy` makes of a sequence of UTF-16 units.
pub uninterp spec fn utf16_lossy(units: Seq<u16>) -> Seq<char>;

/// Wraps `String::from_utf16_lossy` on the first `len` units of `buf`.
/// Its result is named `utf16_lossy` of those units; the fact stated beside
/// the name is plain UTF-16: units outside the surrogate range each stand for
/// the character with that code. What replaces an unpaired surrogate, and
/// how surrogate pairs combine, is left unsaid.
#[verifier::external_body]
fn string_from_utf16_lossy(buf: &[u16], len: usize) -> (res: String)
    requires
        len <= buf@.len(),
    ensures
        res@ == utf16_lossy(buf@.take(len as int)),
        (forall|i: int| 0 <= i < len ==> #[trigger] buf@[i] < 0xD800 || buf@[i] > 0xDFFF) ==> res@
            == buf@.take(len as int).map_values(|u: u16| u as char),
{
    String::from_utf16_lossy(&buf[..len])
}

/// The passphrase typed into the edit control: the UTF-16 text before the
/// first 0 of the buffer, decoded with invalid units replaced.
pub fn pin_text(buf: &[u16]) -> (res: String)
    ensures
        res@ == utf16_lossy(buf@.take(wide_text_len(buf@) as int)),
        (forall|i: int| 0 <= i < buf@.len() ==> #[trigger] buf@[i] < 0xD800 || buf@[i] > 0xDFFF)
            ==> res@ == buf@.take(wide_text_len(buf@) as int).map_values(|u: u16| u as char),
{
    let n = wlen(buf);
    string_from_utf16_lossy(buf, n)
}

/// `n / 96` rounded toward zero, as Rust's integer division does.
pub open spec fn div96_toward_zero(n: int) -> int {
    if n >= 0 {
        n / 96
    } else {
        -((-n) / 96)
    }
}

/// A pixel length given for 96 DPI, scaled to `dpi` (kept to 32 bits the way
/// a cast to `i32` keeps it).
pub open spec fn scaled(px: int, dpi: u32) -> int {
    (div96_toward_zero(px * dpi) as i32) as int
}

/// Scale a baseline-96-DPI pixel value to the actual monitor DPI.
pub fn scale(px: i32, dpi: u32) -> (res: i32)
    ensures
        res == scaled(px as int, dpi),
{
    let p = px as i64;
    let d = dpi as i64;
    assert(-0x8000_0000_0000_0000 < p * d < 0x8000_0000_0000_0000) by (nonlinear_arith)
        requires
            -0x8000_0000 <= p < 0x8000_0000,
            0 <= d < 0x1_0000_0000,
    ;
    let n = p * d;
    let q = if n >= 0 {
        n / 96
    } else {
        -((-n) / 96)
    };
    #[verifier::truncate]
    (q as i32)
}

/// Where one control goes, in client coordinates.
#[derive(Clone, Copy, Debug, PartialEq, Eq, Structural)]
pub enum ControlKind {
    DescLabel,
    ErrorLabel,
    PromptLabel,
    PinEdit,
    OkButton,
    CancelButton,
    NotOkButton,
}

/// A control and its rectangle.
#[derive(Clone, Copy, Debug, PartialEq, Eq, Structural)]
pub struct ControlPlacement {
    pub kind: ControlKind,
    pub x: i32,
    pub y: i32,
    pub width: i32,
    pub height: i32,
}

/// The window ID of a control.
pub open spec fn control_id_of(kind: ControlKind) -> i32 {
    match kind {
        ControlKind::DescLabel => STATIC_DESC,
        ControlKind::ErrorLabel => STATIC_ERROR,
        ControlKind::PromptLabel => STATIC_PROMPT,
        ControlKind::PinEdit => EDIT_PIN,
        ControlKind::OkButton => BTN_OK,
        ControlKind::CancelButton => BTN_CANCEL,
        ControlKind::NotOkButton => BTN_NOTOK,
    }
}

/// The window ID of a control.
pub fn control_id(kind: ControlKind) -> (res: i32)
    ensures
        res == control_id_of(kind),
{
    match kind {
        ControlKind::DescLabel => STATIC_DESC,
        ControlKind::ErrorLabel => STATIC_ERROR,
        ControlKind::PromptLabel => STATIC_PROMPT,
        ControlKind::PinEdit => EDIT_PIN,
        ControlKind::OkButton => BTN_OK,
        ControlKind::CancelButton => BTN_CANCEL,
        ControlKind::NotOkButton => BTN_NOTOK,
    }
}

/// A placement from exact coordinates, each kept to 32 bits as `i32`
/// arithmetic keeps it.
pub open spec fn placed(kind: ControlKind, x: int, y: int, width: int, height: int) -> ControlPlacement {
    ControlPlacement { kind, x: x as i32, y: y as i32, width: width as i32, height: height as i32 }
}

/// Whether a dialog has Cancel (and possibly "No") besides OK.
pub open spec fn has_second_button(c: DialogContent) -> bool {
    !c.one_button && c.mode != DialogMode::Message
}

/// The top of the prompt row (or, without one, of the button row's margin).
pub open spec fn rows_top(c: DialogContent, dpi: u32) -> int {
    scaled(16, dpi) + (if c.has_desc { scaled(76, dpi) } else { 0 }) + (if c.has_error {
        scaled(28, dpi)
    } else {
        0
    })
}

/// The top of the button row.
pub open spec fn buttons_top(c: DialogContent, dpi: u32) -> int {
    rows_top(c, dpi) + (if c.mode == DialogMode::GetPin { scaled(42, dpi) } else { 0 }) + scaled(
        12,
        dpi,
    )
}

/// The controls of a dialog, top to bottom, then the buttons right to left:
/// a 440-pixel-wide client area with 16-pixel padding; the description
/// (68 high, in a 76 row), the error (20 high, in a 28 row), the prompt label
/// and passphrase edit (in a 42 row), and 92x28 buttons 8 apart, 12 below,
/// flush right. All lengths are for 96 DPI and scaled to `dpi`.
pub open spec fn dialog_layout(c: DialogContent, dpi: u32) -> Seq<ControlPlacement> {
    let pad = scaled(16, dpi);
    let cw = scaled(440, dpi);
    let ctrl_w = cw - pad * 2;
    let desc_y = pad;
    let error_y = pad + (if c.has_desc { scaled(76, dpi) } else { 0 });
    let pin_y = rows_top(c, dpi);
    let btn_w = scaled(92, dpi);
    let btn_h = scaled(28, dpi);
    let step = btn_w + scaled(8, dpi);
    let btn_y = buttons_top(c, dpi);
    let ok_x = cw - pad - btn_w;
    (if c.has_desc {
        seq![placed(ControlKind::DescLabel, pad, desc_y, ctrl_w, scaled(68, dpi))]
    } else {
        Seq::empty()
    }) + (if c.has_error {
        seq![placed(ControlKind::ErrorLabel, pad, error_y, ctrl_w, scaled(20, dpi))]
    } else {
        Seq::empty()
    }) + (if c.mode == DialogMode::GetPin {
        seq![
            placed(
                ControlKind::PromptLabel,
                pad,
                pin_y + scaled(4, dpi),
                scaled(100, dpi),
                scaled(20, dpi),
            ),
            placed(
                ControlKind::PinEdit,
                pad + scaled(108, dpi),
                pin_y,
                ctrl_w - scaled(108, dpi),
                scaled(26, dpi),
            ),
        ]
    } else {
        Seq::empty()
    }) + seq![placed(ControlKind::OkButton, ok_x, btn_y, btn_w, btn_h)] + (if has_second_button(
        c,
    ) {
        seq![placed(ControlKind::CancelButton, ok_x - step, btn_y, btn_w, btn_h)] + (if c.has_notok {
            seq![placed(ControlKind::NotOkButton, ok_x - step * 2, btn_y, btn_w, btn_h)]
        } else {
            Seq::empty()
        })
    } else {
        Seq::empty()
    })
}

/// A placement from coordinates computed in 64 bits.
fn place(kind: ControlKind, x: i64, y: i64, width: i64, height: i64) -> (res: ControlPlacement)
    ensures
        res == placed(kind, x as int, y as int, width as int, height as int),
{
    ControlPlacement { kind, x: x as i32, y: y as i32, width: width as i32, height: height as i32 }
}

/// The child controls of a dialog and their rectangles at `dpi`.
#[verifier::spinoff_prover]
#[verifier::rlimit(40)]
pub fn layout(c: &DialogContent, dpi: u32) -> (res: Vec<ControlPlacement>)
    ensures
        res@ == dialog_layout(*c, dpi),
{
    let pad = scale(16, dpi) as i64;
    let cw = scale(440, dpi) as i64;
    let ctrl_w = cw - pad * 2;
    let mut res: Vec<ControlPlacement> = Vec::new();
    let mut y = pad;
    if c.has_desc {
        res.push(place(ControlKind::DescLabel, pad, y, ctrl_w, scale(68, dpi) as i64));
        y = y + scale(76, dpi) as i64;
    }
    if c.has_error {
        res.push(place(ControlKind::ErrorLabel, pad, y, ctrl_w, scale(20, dpi) as i64));
        y = y + scale(28, dpi) as i64;
    }
    let ghost before_pin = res@;
    if c.mode == DialogMode::GetPin {
        let label_w = scale(100, dpi) as i64;
        let x_offset = scale(108, dpi) as i64;
        let edit_h = scale(26, dpi) as i64;
        res.push(place(ControlKind::PromptLabel, pad, y + scale(4, dpi) as i64, label_w, scale(20, dpi) as i64));
        res.push(place(ControlKind::PinEdit, pad + x_offset, y, ctrl_w - x_offset, edit_h));
        y = y + scale(42, dpi) as i64;
    }
    let btn_h = scale(28, dpi) as i64;
    let btn_w = scale(92, dpi) as i64;
    let btn_gap = scale(8, dpi) as i64;
    let btn_y = y + scale(12, dpi) as i64;
    let mut btn_x = cw - pad - btn_w;
    res.push(place(ControlKind::OkButton, btn_x, btn_y, btn_w, btn_h));
    btn_x = btn_x - (btn_w + btn_gap);
    if !c.one_button && c.mode != DialogMode::Message {
        res.push(place(ControlKind::CancelButton, btn_x, btn_y, btn_w, btn_h));
        btn_x = btn_x - (btn_w + btn_gap);
        if c.has_notok {
            res.push(place(ControlKind::NotOkButton, btn_x, btn_y, btn_w, btn_h));
        }
    }
    assert(res@ =~= dialog_layout(*c, dpi));
    res
}

/// The client area's height: padding, the rows present, the button row and
/// its margins.
pub open spec fn client_height_of(c: DialogContent, dpi: u32) -> i32 {
    (buttons_top(c, dpi) + scaled(28, dpi) + scaled(16, dpi)) as i32
}

/// The client area's height at `dpi` for a dialog's content.
pub fn client_height(c: &DialogContent, dpi: u32) -> (res: i32)
    ensures
        res == client_height_of(*c, dpi),
{
    let mut h = scale(16, dpi) as i64;
    if c.has_desc {
        h = h + scale(76, dpi) as i64;
    }
    if c.has_error {
        h = h + scale(28, dpi) as i64;
    }
    if c.mode == DialogMode::GetPin {
        h = h + scale(42, dpi) as i64;
    }
    (h + scale(12, dpi) as i64 + scale(28, dpi) as i64 + scale(16, dpi) as i64) as i32
}

/// The client area's width at `dpi`.
pub fn client_width(dpi: u32) -> (res: i32)
    ensures
        res == scaled(440, dpi),
{
    scale(440, dpi)
}

/// A confirmation or message dialog shows the description whenever one is
/// set, whatever the button mode; only without a description does a
/// single-button (message) dialog fall back to the prompt (or "PIN:"), and a
/// two-button one show nothing.
pub proof fn lemma_confirm_shows_description(s: StateModel)
    ensures
        s.desc.len() > 0 ==> confirm_desc(s) == s.desc,
        s.desc.len() == 0 && s.one_button && s.prompt.len() > 0 ==> confirm_desc(s) == s.prompt,
        s.desc.len() == 0 && s.one_button && s.prompt.len() == 0 ==> confirm_desc(s) == "PIN:"@,
        s.desc.len() == 0 && !s.one_button ==> confirm_desc(s).len() == 0,
{
}

/// The largest DPI at which the 440-pixel client width, scaled, still fits
/// in an `i32`; above it the scaled lengths wrap around.
pub open spec fn max_layout_dpi() -> u32 {
    468541886
}

/// Whether a control lies inside a client area of the given size.
pub open spec fn inside_client_area(p: ControlPlacement, width: int, height: int) -> bool {
    &&& 0 <= p.x && 0 <= p.y
    &&& p.x as int + p.width as int <= width
    &&& p.y as int + p.height as int <= height
}

proof fn lemma_scaled_exact(px: int, dpi: u32)
    requires
        0 <= px <= 440,
        dpi <= max_layout_dpi(),
    ensures
        scaled(px, dpi) == (px * dpi) / 96,
        0 <= scaled(px, dpi) <= px * 4880645,
{
    let n = px * dpi;
    assert(0 <= n <= px * 468541886 && px * 468541886 <= px * 4880645 * 96 && px * 4880645 <= 440
        * 4880645) by (nonlinear_arith)
        requires
            0 <= px <= 440,
            0 <= dpi <= 468541886,
            n == px * dpi,
    ;
    assert(n / 96 <= px * 4880645);
}

proof fn lemma_scaled_sum(a: int, b: int, dpi: u32)
    requires
        0 <= a,
        0 <= b,
        a + b <= 440,
        dpi <= max_layout_dpi(),
    ensures
        scaled(a, dpi) + scaled(b, dpi) <= scaled(a + b, dpi),
{
    lemma_scaled_exact(a, dpi);
    lemma_scaled_exact(b, dpi);
    lemma_scaled_exact(a + b, dpi);
    let x = a * dpi;
    let y = b * dpi;
    assert((a + b) * dpi == x + y) by (nonlinear_arith)
        requires
            x == a * dpi,
            y == b * dpi,
    ;
    assert(x >= 0 && y >= 0) by (nonlinear_arith)
        requires
            x == a * dpi,
            y == b * dpi,
            a >= 0,
            b >= 0,
            dpi >= 0,
    ;
    assert(x / 96 + y / 96 <= (x + y) / 96);
}

proof fn lemma_scaled_le(a: int, b: int, dpi: u32)
    requires
        0 <= a <= b <= 440,
        dpi <= max_layout_dpi(),
    ensures
        scaled(a, dpi) <= scaled(b, dpi),
{
    lemma_scaled_sum(a, b - a, dpi);
    lemma_scaled_exact(b - a, dpi);
}

proof fn lemma_all_inside_concat(a: Seq<ControlPlacement>, b: Seq<ControlPlacement>, w: int, h: int)
    requires
        forall|i: int| 0 <= i < a.len() ==> inside_client_area(#[trigger] a[i], w, h),
        forall|i: int| 0 <= i < b.len() ==> inside_client_area(#[trigger] b[i], w, h),
    ensures
        forall|i: int| 0 <= i < (a + b).len() ==> inside_client_area(#[trigger] (a + b)[i], w, h),
{
    assert forall|i: int| 0 <= i < (a + b).len() implies inside_client_area(#[trigger] (a + b)[i], w, h) by {
        if i < a.len() {
            assert((a + b)[i] == a[i]);
        } else {
            assert((a + b)[i] == b[i - a.len()]);
        }
    }
}

/// The client area holds every control that the layout places: each one
/// lies within the client width and height, the OK button is always placed,
/// and the bottom padding below its row is exactly the 16-pixel margin
/// (scaled). Holds for every DPI up to [`max_layout_dpi`]; above it the
/// 32-bit lengths wrap around.
#[verifier::spinoff_prover]
#[verifier::rlimit(60)]
pub proof fn lemma_layout_fits_client_area(c: DialogContent, dpi: u32)
    requires
        dpi <= max_layout_dpi(),
    ensures
        forall|i: int|
            0 <= i < dialog_layout(c, dpi).len() ==> inside_client_area(
                #[trigger] dialog_layout(c, dpi)[i],
                scaled(440, dpi),
                client_height_of(c, dpi) as int,
            ),
        exists|i: int|
            0 <= i < dialog_layout(c, dpi).len() && (#[trigger] dialog_layout(c, dpi)[i]).kind
                == ControlKind::OkButton && dialog_layout(c, dpi)[i].y as int + dialog_layout(
                c,
                dpi,
            )[i].height as int + scaled(16, dpi) == client_height_of(c, dpi) as int,
{
    let s4 = scaled(4, dpi);
    let s8 = scaled(8, dpi);
    let s12 = scaled(12, dpi);
    let s16 = scaled(16, dpi);
    let s20 = scaled(20, dpi);
    let s26 = scaled(26, dpi);
    let s28 = scaled(28, dpi);
    let s42 = scaled(42, dpi);
    let s68 = scaled(68, dpi);
    let s76 = scaled(76, dpi);
    let s92 = scaled(92, dpi);
    let s100 = scaled(100, dpi);
    let s108 = scaled(108, dpi);
    let s440 = scaled(440, dpi);
    lemma_scaled_exact(4, dpi);
    lemma_scaled_exact(8, dpi);
    lemma_scaled_exact(12, dpi);
    lemma_scaled_exact(16, dpi);
    lemma_scaled_exact(20, dpi);
    lemma_scaled_exact(26, dpi);
    lemma_scaled_exact(28, dpi);
    lemma_scaled_exact(42, dpi);
    lemma_scaled_exact(68, dpi);
    lemma_scaled_exact(76, dpi);
    lemma_scaled_exact(92, dpi);
    lemma_scaled_exact(100, dpi);
    lemma_scaled_exact(108, dpi);
    lemma_scaled_exact(440, dpi);
    lemma_scaled_le(68, 76, dpi);
    lemma_scaled_le(20, 28, dpi);
    lemma_scaled_le(26, 42, dpi);
    lemma_scaled_sum(4, 20, dpi);
    lemma_scaled_le(24, 42, dpi);
    lemma_scaled_exact(24, dpi);
    // Horizontal room: 16 + 100 and 16 + 3 * 92 + 2 * 8 + 16 fit in 440.
    lemma_scaled_sum(16, 100, dpi);
    lemma_scaled_exact(116, dpi);
    lemma_scaled_le(116, 440, dpi);
    lemma_scaled_sum(16, 92, dpi);
    lemma_scaled_exact(108, dpi);
    lemma_scaled_sum(108, 92, dpi);
    lemma_scaled_exact(200, dpi);
    lemma_scaled_sum(200, 92, dpi);
    lemma_scaled_exact(292, dpi);
    lemma_scaled_sum(292, 8, dpi);
    lemma_scaled_exact(300, dpi);
    lemma_scaled_sum(300, 8, dpi);
    lemma_scaled_exact(308, dpi);
    lemma_scaled_sum(308, 16, dpi);
    lemma_scaled_exact(324, dpi);
    lemma_scaled_le(324, 440, dpi);
    lemma_scaled_sum(16, 16, dpi);
    lemma_scaled_exact(32, dpi);
    lemma_scaled_sum(32, 108, dpi);
    lemma_scaled_exact(140, dpi);
    lemma_scaled_le(140, 440, dpi);

    let w = s440;
    let h = client_height_of(c, dpi) as int;
    assert(h == buttons_top(c, dpi) + s28 + s16);
    let pad = s16;
    let ctrl_w = s440 - pad * 2;
    let pin_y = rows_top(c, dpi);
    let btn_y = buttons_top(c, dpi);
    let step = s92 + s8;
    let ok_x = s440 - pad - s92;
    let d_part = if c.has_desc {
        seq![placed(ControlKind::DescLabel, pad, pad, ctrl_w, s68)]
    } else {
        Seq::empty()
    };
    let e_part = if c.has_error {
        seq![
            placed(
                ControlKind::ErrorLabel,
                pad,
                pad + (if c.has_desc { s76 } else { 0 }),
                ctrl_w,
                s20,
            ),
        ]
    } else {
        Seq::empty()
    };
    let p_part = if c.mode == DialogMode::GetPin {
        seq![
            placed(ControlKind::PromptLabel, pad, pin_y + s4, s100, s20),
            placed(ControlKind::PinEdit, pad + s108, pin_y, ctrl_w - s108, s26),
        ]
    } else {
        Seq::empty()
    };
    let ok_part = seq![placed(ControlKind::OkButton, ok_x, btn_y, s92, s28)];
    let b_part = if has_second_button(c) {
        seq![placed(ControlKind::CancelButton, ok_x - step, btn_y, s92, s28)] + (if c.has_notok {
            seq![placed(ControlKind::NotOkButton, ok_x - step * 2, btn_y, s92, s28)]
        } else {
            Seq::empty()
        })
    } else {
        Seq::empty()
    };
    let lay = dialog_layout(c, dpi);
    assert(lay == d_part + e_part + p_part + ok_part + b_part);
    assert forall|i: int| 0 <= i < d_part.len() implies inside_client_area(#[trigger] d_part[i], w, h) by {}
    assert forall|i: int| 0 <= i < e_part.len() implies inside_client_area(#[trigger] e_part[i], w, h) by {}
    assert forall|i: int| 0 <= i < p_part.len() implies inside_client_area(#[trigger] p_part[i], w, h) by {}
    assert forall|i: int| 0 <= i < ok_part.len() implies inside_client_area(#[trigger] ok_part[i], w, h) by {}
    if has_second_button(c) {
        let c_part = seq![placed(ControlKind::CancelButton, ok_x - step, btn_y, s92, s28)];
        let n_part = if c.has_notok {
            seq![placed(ControlKind::NotOkButton, ok_x - step * 2, btn_y, s92, s28)]
        } else {
            Seq::<ControlPlacement>::empty()
        };
        assert forall|i: int| 0 <= i < c_part.len() implies inside_client_area(#[trigger] c_part[i], w, h) by {}
        assert forall|i: int| 0 <= i < n_part.len() implies inside_client_area(#[trigger] n_part[i], w, h) by {}
        lemma_all_inside_concat(c_part, n_part, w, h);
    }
    assert forall|i: int| 0 <= i < b_part.len() implies inside_client_area(#[trigger] b_part[i], w, h) by {}
    lemma_all_inside_concat(d_part, e_part, w, h);
    lemma_all_inside_concat(d_part + e_part, p_part, w, h);
    lemma_all_inside_concat(d_part + e_part + p_part, ok_part, w, h);
    lemma_all_inside_concat(d_part + e_part + p_part + ok_part, b_part, w, h);
    let k = (d_part + e_part + p_part).len() as int;
    assert(lay[k] == ok_part[0]);
}

} // verus!
