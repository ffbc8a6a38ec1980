//! Text injection: delivering a transcript to the focused window.
//!
//! The platform-native method is tried first (synthetic key events on
//! Windows, `xdotool`/`ydotool` on Linux); when it fails, the text goes to
//! the clipboard.  The operating-system calls themselves are made by the
//! callers; this module decides what to attempt, in which order, and what
//! the outcome is, and computes what is handed to the OS.
use vstd::prelude::*;
use crate::text::chars_of;

verus! {

/// Outcome of an injection attempt.
#[derive(Debug)]
pub enum InjectionResult {
    /// Text was typed into the focused input via keyboard simulation.
    Injected,
    /// No injectable target found; the text is on the clipboard.
    Clipboard,
    /// Both injection and the clipboard fallback failed.
    Failed(String),
}

/// The outcome of the clipboard fallback, given what setting the clipboard
/// returned.
pub open spec fn fallback_result(r: Result<(), String>) -> InjectionResult {
    match r {
        Ok(()) => InjectionResult::Clipboard,
        Err(e) => InjectionResult::Failed(e),
    }
}

/// Put `text` on the clipboard with `set_clipboard`: `Clipboard` when that
/// succeeds, `Failed` with its error otherwise.
pub fn clipboard_fallback<C: FnOnce(&str) -> Result<(), String>>(
    text: &str,
    set_clipboard: C,
) -> (r: InjectionResult)
    requires
        call_requires(set_clipboard, (text,)),
    ensures
        exists|c: Result<(), String>|
            call_ensures(set_clipboard, (text,), c) && r == #[trigger] fallback_result(c),
{
    let c = set_clipboard(text);
    let ghost cg = c;
    let r = match c {
        Ok(()) => InjectionResult::Clipboard,
        Err(e) => InjectionResult::Failed(e),
    };
    assert(r == fallback_result(cg));
    r
}

/// Inject `text` into the focused window.  Empty text needs nothing and is
/// reported as injected; otherwise `type_natively` is tried first and, when
/// it fails, the text goes to the clipboard through `set_clipboard`.
pub fn inject<N, C>(text: &str, type_natively: N, set_clipboard: C) -> (r: InjectionResult) where
    N: FnOnce(&str) -> Result<(), String>,
    C: FnOnce(&str) -> Result<(), String>,

    requires
        call_requires(type_natively, (text,)),
        call_requires(set_clipboard, (text,)),
    ensures
        text@.len() == 0 ==> r is Injected,
        text@.len() > 0 ==> exists|n: Result<(), String>|
            #[trigger] call_ensures(type_natively, (text,), n) && match n {
                Ok(()) => r is Injected,
                Err(_) => exists|c: Result<(), String>|
                    call_ensures(set_clipboard, (text,), c) && r == #[trigger] fallback_result(c),
            },
{
    if text.is_empty() {
        // nothing to do
        return InjectionResult::Injected;
    }
    let n = type_natively(text);
    assert(call_ensures(type_natively, (text,), n));
    match n {
        Ok(()) => InjectionResult::Injected,
        Err(_) => clipboard_fallback(text, set_clipboard),
    }
}

/// The program and arguments that type text on a Linux desktop.
pub struct TypingCommand {
    pub program: String,
    pub args: Vec<String>,
}

/// The views of a list of strings.
pub open spec fn views(v: Seq<String>) -> Seq<Seq<char>> {
    v.map_values(|s: String| s@)
}

/// What `typing_command` returns.
pub open spec fn typing_command_spec(text: Seq<char>, on_wayland: bool, on_x11: bool) -> Result<
    (Seq<char>, Seq<Seq<char>>),
    Seq<char>,
> {
    if on_wayland {
        Ok(("ydotool"@, seq!["type"@, "--delay"@, "0"@, "--"@, text]))
    } else if on_x11 {
        Ok(("xdotool"@, seq!["type"@, "--clearmodifiers"@, "--delay"@, "0"@, "--"@, text]))
    } else {
        Err("No X11 (DISPLAY) or Wayland (WAYLAND_DISPLAY) session detected"@)
    }
}

/// The command that types `text` on Linux: `ydotool` under Wayland (which
/// needs the `ydotoold` daemon), else `xdotool` under X11, else an error.
/// `--delay 0` avoids the per-character delay, `--clearmodifiers` resets held
/// modifier keys, and `--` lets the text start with `-`.
pub fn typing_command(text: &str, on_wayland: bool, on_x11: bool) -> (r: Result<
    TypingCommand,
    String,
>)
    ensures
        match (r, typing_command_spec(text@, on_wayland, on_x11)) {
            (Ok(c), Ok((prog, args))) => c.program@ == prog && views(c.args@) == args,
            (Err(e), Err(m)) => e@ == m,
            _ => false,
        },
{
    if on_wayland {
        let mut args: Vec<String> = Vec::new();
        args.push(String::from_str("type"));
        args.push(String::from_str("--delay"));
        args.push(String::from_str("0"));
        args.push(String::from_str("--"));
        args.push(String::from_str(text));
        let c = TypingCommand { program: String::from_str("ydotool"), args };
        assert(views(c.args@) =~= seq!["type"@, "--delay"@, "0"@, "--"@, text@]);
        Ok(c)
    } else if on_x11 {
        let mut args: Vec<String> = Vec::new();
        args.push(String::from_str("type"));
        args.push(String::from_str("--clearmodifiers"));
        args.push(String::from_str("--delay"));
        args.push(String::from_str("0"));
        args.push(String::from_str("--"));
        args.push(String::from_str(text));
        let c = TypingCommand { program: String::from_str("xdotool"), args };
        assert(views(c.args@) =~= seq![
            "type"@,
            "--clearmodifiers"@,
            "--delay"@,
            "0"@,
            "--"@,
            text@,
        ]);
        Ok(c)
    } else {
        Err(String::from_str("No X11 (DISPLAY) or Wayland (WAYLAND_DISPLAY) session detected"))
    }
}

/// The UTF-16 code units of one character: one unit inside the Basic
/// Multilingual Plane, a surrogate pair beyond it.
pub open spec fn utf16_char(c: char) -> Seq<u16> {
    let u = c as u32;
    if u < 0x10000 {
        seq![u as u16]
    } else {
        let v = u - 0x10000;
        seq![(0xD800 + v / 0x400) as u16, (0xDC00 + v % 0x400) as u16]
    }
}

/// The UTF-16 encoding of a character sequence, as `str::encode_utf16`
/// yields it.
pub open spec fn utf16(s: Seq<char>) -> Seq<u16>
    decreases s.len(),
{
    if s.len() == 0 {
        Seq::empty()
    } else {
        utf16(s.drop_last()) + utf16_char(s.last())
    }
}

/// The UTF-16 code units of `text`.
pub fn utf16_units(text: &str) -> (units: Vec<u16>)
    ensures
        units@ == utf16(text@),
{
    let chars = chars_of(text);
    let mut units: Vec<u16> = Vec::new();
    let mut i: usize = 0;
    while i < chars.len()
        invariant
            i <= chars@.len(),
            chars@ == text@,
            units@ == utf16(chars@.take(i as int)),
        decreases chars@.len() - i,
    {
        let c = chars[i];
        let u = c as u32;
        assert(chars@.take(i + 1).drop_last() =~= chars@.take(i as int));
        if u < 0x10000 {
            units.push(u as u16);
        } else {
            let v = u - 0x10000;
            units.push((0xD800 + v / 0x400) as u16);
            units.push((0xDC00 + v % 0x400) as u16);
        }
        assert(units@ =~= utf16(chars@.take(i + 1)));
        i = i + 1;
    }
    assert(chars@.take(chars@.len() as int) =~= chars@);
    units
}

/// One synthetic Unicode key event: the UTF-16 unit and whether the key is
/// released (`true`) or pressed (`false`).
#[derive(Clone, Copy, Debug, PartialEq, Eq, Structural)]
pub struct KeyEvent {
    pub unit: u16,
    pub key_up: bool,
}

/// The key events that type `units`: a press and a release per unit.
pub fn unicode_key_events(units: &[u16]) -> (events: Vec<KeyEvent>)
    requires
        units@.len() * 2 <= usize::MAX,
    ensures
        events@.len() == units@.len() * 2,
        forall|i: int|
            0 <= i < units@.len() ==> events@[2 * i] == (KeyEvent { unit: units@[i], key_up: false })
                && events@[2 * i + 1] == (KeyEvent { unit: units@[i], key_up: true }),
{
    let mut events: Vec<KeyEvent> = Vec::with_capacity(units.len() * 2);
    let mut i: usize = 0;
    while i < units.len()
        invariant
            i <= units@.len(),
            events@.len() == i * 2,
            forall|j: int|
                0 <= j < i ==> events@[2 * j] == (KeyEvent { unit: units@[j], key_up: false })
                    && events@[2 * j + 1] == (KeyEvent { unit: units@[j], key_up: true }),
        decreases units@.len() - i,
    {
        events.push(KeyEvent { unit: units[i], key_up: false });
        events.push(KeyEvent { unit: units[i], key_up: true });
        i = i + 1;
    }
    events
}

/// The decimal digit of `d < 10`.
pub open spec fn digit_char(d: nat) -> char {
    (48 + d) as char
}

/// The decimal representation of `n`, without leading zeros.
pub open spec fn decimal(n: nat) -> Seq<char>
    decreases n,
{
    if n < 10 {
        seq![digit_char(n)]
    } else {
        decimal(n / 10).push(digit_char(n % 10))
    }
}

/// Appends the decimal representation of `n` to `s`.
pub fn push_decimal(s: &mut String, n: u64)
    ensures
        final(s)@ == old(s)@ + decimal(n as nat),
    decreases n,
{
    if n >= 10 {
        push_decimal(s, n / 10);
    }
    let d = (n % 10) as u8;
    let c = (48u8 + d) as char;
    assert(c == digit_char((n % 10) as nat));
    crate::text::push_char(s, c);
    if n >= 10 {
        assert(old(s)@ + decimal((n / 10) as nat) + seq![c] =~= old(s)@ + decimal(n as nat));
    } else {
        assert(old(s)@.push(c) =~= old(s)@ + decimal(n as nat));
    }
}

/// The error when the OS accepted only `sent` of `expected` key events.
pub open spec fn blocked_inputs(sent: nat, expected: nat) -> Seq<char> {
    "SendInput: "@ + decimal(sent) + "/"@ + decimal(expected)
        + " events delivered — OS blocked some inputs"@
}

/// The outcome of sending `expected` synthetic key events when the OS
/// reports `sent` of them delivered: success only when all were.
pub fn send_input_result(sent: u32, expected: usize) -> (r: Result<(), String>)
    ensures
        r is Ok <==> sent == expected,
        r matches Err(e) ==> e@ == blocked_inputs(sent as nat, expected as nat),
{
    if sent as usize == expected {
        return Ok(());
    }
    let mut e = String::from_str("SendInput: ");
    push_decimal(&mut e, sent as u64);
    e.append("/");
    push_decimal(&mut e, expected as u64);
    e.append(" events delivered — OS blocked some inputs");
    Err(e)
}

} // verus!
