//! Speech input on Windows, which goes through PowerShell scripts: how a script is
//! handed to PowerShell, and what the answers of the recognizer probe, a recognition
//! and the clipboard scripts mean.
use vstd::prelude::*;

use crate::checkpoint::CommandOutcome;
use crate::text::{append_chars, append_str, chars_of, find_char, find_char_in, slice_chars, string_from, trim, trim_chars};

verus! {

broadcast use vstd::string::group_string_axioms;

/// The shortcut that starts dictation on Windows.
pub const WINDOWS_SPEECH_SHORTCUT: &'static str = "Shift+Ctrl+Space";

/// A transcript for the window that started dictation.
#[derive(Debug)]
pub struct WindowsSpeechTranscriptPayload {
    pub target_token: String,
    pub text: String,
}

/// Whether a Windows speech recognizer is installed, which one, and why not.
#[derive(Debug)]
pub struct WindowsSpeechCapability {
    pub available: bool,
    pub recognizer_name: Option<String>,
    pub culture: Option<String>,
    pub shortcut: &'static str,
    pub details: String,
}

/// The UTF-16 code units of a character.
pub open spec fn utf16_units(c: char) -> Seq<nat> {
    let u = c as u32;
    if u < 0x10000 {
        seq![u as nat]
    } else {
        seq![(0xD800 + (u - 0x10000) / 1024) as nat, (0xDC00 + (u - 0x10000) % 1024) as nat]
    }
}

/// The little-endian bytes of UTF-16 code units.
pub open spec fn le_bytes(units: Seq<nat>) -> Seq<u8>
    decreases units.len(),
{
    if units.len() == 0 {
        seq![]
    } else {
        seq![(units[0] % 256) as u8, (units[0] / 256) as u8] + le_bytes(units.drop_first())
    }
}

/// A text in UTF-16, little-endian, as PowerShell's `-EncodedCommand` takes it.
pub open spec fn utf16le(s: Seq<char>) -> Seq<u8>
    decreases s.len(),
{
    if s.len() == 0 {
        seq![]
    } else {
        le_bytes(utf16_units(s[0])) + utf16le(s.drop_first())
    }
}

fn push_unit(out: &mut Vec<u8>, unit: u32)
    requires
        unit < 0x10000,
    ensures
        final(out)@ == old(out)@ + le_bytes(seq![unit as nat]),
{
    let ghost before = out@;
    let lo: u8 = (unit % 256) as u8;
    let hi: u8 = (unit / 256) as u8;
    out.push(lo);
    out.push(hi);
    assert(seq![unit as nat].drop_first() =~= Seq::<nat>::empty());
    assert(le_bytes(Seq::<nat>::empty()) =~= Seq::<u8>::empty());
    assert(lo == ((unit as nat) % 256) as u8);
    assert(hi == ((unit as nat) / 256) as u8);
    assert(out@ =~= before + le_bytes(seq![unit as nat]));
}

/// The bytes of a text in UTF-16, little-endian.
pub fn utf16le_bytes(s: &str) -> (res: Vec<u8>)
    ensures
        res@ == utf16le(s@),
{
    let text = chars_of(s);
    let mut out: Vec<u8> = Vec::new();
    let mut i: usize = 0;
    assert(text@.skip(0) =~= text@);
    assert(out@ + utf16le(text@.skip(0)) =~= utf16le(s@));
    while i < text.len()
        invariant
            i <= text.len(),
            text@ == s@,
            out@ + utf16le(text@.skip(i as int)) == utf16le(s@),
        decreases text.len() - i,
    {
        let c = text[i];
        proof {
            vstd::utf8::char_is_scalar(c);
        }
        let ghost rest = text@.skip(i as int);
        assert(rest[0] == c);
        assert(rest.drop_first() =~= text@.skip(i + 1));
        let u = c as u32;
        let ghost before = out@;
        if u < 0x10000 {
            push_unit(&mut out, u);
            assert(utf16_units(c) =~= seq![u as nat]);
        } else {
            let v = u - 0x10000;
            push_unit(&mut out, 0xD800 + v / 1024);
            push_unit(&mut out, 0xDC00 + v % 1024);
            let ghost units = seq![(0xD800 + v / 1024) as nat, (0xDC00 + v % 1024) as nat];
            assert(utf16_units(c) =~= units);
            proof {
                lemma_le_bytes_split(units);
            }
        }
        assert(before + utf16le(rest) =~= out@ + utf16le(text@.skip(i + 1)));
        i += 1;
    }
    assert(text@.skip(i as int) =~= seq![]);
    assert(out@ + seq![] =~= out@);
    out
}

/// A character of the standard base64 alphabet.
pub open spec fn b64(v: nat) -> char {
    if v < 26 {
        (('A' as nat) + v) as char
    } else if v < 52 {
        (('a' as nat) + v - 26) as char
    } else if v < 62 {
        (('0' as nat) + v - 52) as char
    } else if v == 62 {
        '+'
    } else {
        '/'
    }
}

/// Standard base64 with padding: each three bytes become four characters, and a last
/// group of one or two bytes is padded with `=`.
pub open spec fn base64_standard(b: Seq<u8>) -> Seq<char>
    decreases b.len(),
{
    if b.len() == 0 {
        seq![]
    } else if b.len() == 1 {
        seq![b64(b[0] as nat / 4), b64((b[0] as nat % 4) * 16), '=', '=']
    } else if b.len() == 2 {
        seq![
            b64(b[0] as nat / 4),
            b64((b[0] as nat % 4) * 16 + b[1] as nat / 16),
            b64((b[1] as nat % 16) * 4),
            '=',
        ]
    } else {
        seq![
            b64(b[0] as nat / 4),
            b64((b[0] as nat % 4) * 16 + b[1] as nat / 16),
            b64((b[1] as nat % 16) * 4 + b[2] as nat / 64),
            b64(b[2] as nat % 64),
        ] + base64_standard(b.skip(3))
    }
}

/// `base64::encode` (version 0.13): standard base64 with padding. Inputs stay far below the
/// length at which the crate's size computation overflows.
#[verifier::external_body]
fn base64_encode(bytes: &[u8]) -> (res: String)
    requires
        bytes@.len() < 0x1000_0000_0000_0000,
    ensures
        res@ == base64_standard(bytes@),
{
    base64::encode(bytes)
}

/// The argument of PowerShell's `-EncodedCommand` for a script: its UTF-16 bytes, in
/// base64.
pub fn powershell_encoded_command(script: &str) -> (res: String)
    requires
        script@.len() < 0x100_0000_0000_0000,
    ensures
        res@ == base64_standard(utf16le(script@)),
{
    let bytes = utf16le_bytes(script);
    proof {
        lemma_utf16le_len(script@);
    }
    base64_encode(bytes.as_slice())
}

/// The bytes of two code units are those of the first, then those of the second.
proof fn lemma_le_bytes_split(units: Seq<nat>)
    requires
        units.len() == 2,
    ensures
        le_bytes(units) == le_bytes(seq![units[0]]) + le_bytes(seq![units[1]]),
{
    assert(units.drop_first() =~= seq![units[1]]);
    assert(seq![units[0]].drop_first() =~= Seq::<nat>::empty());
    assert(seq![units[1]].drop_first() =~= Seq::<nat>::empty());
    assert(le_bytes(Seq::<nat>::empty()) =~= Seq::<u8>::empty());
    assert(le_bytes(seq![units[0]]) =~= seq![(units[0] % 256) as u8, (units[0] / 256) as u8]);
    assert(le_bytes(seq![units[1]]) =~= seq![(units[1] % 256) as u8, (units[1] / 256) as u8]);
    assert(le_bytes(units) =~= seq![(units[0] % 256) as u8, (units[0] / 256) as u8] + le_bytes(
        seq![units[1]],
    ));
}

/// Two bytes a code unit.
proof fn lemma_le_bytes_len(units: Seq<nat>)
    ensures
        le_bytes(units).len() == 2 * units.len(),
    decreases units.len(),
{
    if units.len() > 0 {
        lemma_le_bytes_len(units.drop_first());
    }
}

/// UTF-16 takes at most four bytes a character.
proof fn lemma_utf16le_len(s: Seq<char>)
    ensures
        utf16le(s).len() <= 4 * s.len(),
    decreases s.len(),
{
    if s.len() > 0 {
        lemma_utf16le_len(s.drop_first());
        lemma_le_bytes_len(utf16_units(s[0]));
    }
}

/// The error when PowerShell could not start.
pub open spec fn launch_error(e: Seq<char>) -> Seq<char> {
    "启动 Windows PowerShell 失败: "@ + e
}

fn launch_error_of(e: &String) -> (res: String)
    ensures
        res@ == launch_error(e@),
{
    let mut m = chars_of("启动 Windows PowerShell 失败: ");
    append_str(&mut m, e.as_str());
    string_from(&m)
}

/// What comes before the first tab of a text, and what follows it (`splitn(2, '\t')`).
pub open spec fn tab_split(t: Seq<char>) -> (Seq<char>, Option<Seq<char>>) {
    match find_char(t, '\t') {
        Some(k) => (t.take(k), Some(t.skip(k + 1))),
        None => (t, None),
    }
}

/// A piece that is not empty.
pub open spec fn non_empty(p: Option<Seq<char>>) -> Option<Seq<char>> {
    match p {
        Some(v) => if v.len() > 0 {
            Some(v)
        } else {
            None
        },
        None => None,
    }
}

/// The view of an optional `String`.
pub open spec fn sv(o: Option<String>) -> Option<Seq<char>> {
    match o {
        Some(s) => Some(s@),
        None => None,
    }
}

/// What the recognizer probe means: its name and culture (separated by a tab) when it
/// ran, whether a recognizer is there, and a sentence about it.
pub open spec fn capability_spec(o: CommandOutcome, c: WindowsSpeechCapability) -> bool {
    &&& c.shortcut@ == "Shift+Ctrl+Space"@
    &&& match o {
        CommandOutcome::Exited { success: true, stdout, .. } => {
            let parts = tab_split(trim(stdout@));
            &&& sv(c.recognizer_name) == non_empty(Some(parts.0))
            &&& sv(c.culture) == non_empty(parts.1)
            &&& c.available == (c.recognizer_name is Some)
            &&& c.details@ == if c.available {
                "Windows 本地 System.Speech 识别器可用；识别文本会继续经过 iterate 的纠错与肌肉记忆后处理。"@
            } else {
                "Windows 未安装可用的 System.Speech 识别器。"@
            }
        },
        CommandOutcome::Exited { stderr, .. } => {
            &&& !c.available
            &&& c.recognizer_name is None
            &&& c.culture is None
            &&& c.details@ == "Windows 语音识别器探测失败："@ + trim(stderr@)
        },
        CommandOutcome::SpawnFailed(e) => {
            &&& !c.available
            &&& c.recognizer_name is None
            &&& c.culture is None
            &&& c.details@ == launch_error(e@)
        },
    }
}

fn text(s: &str) -> (res: String)
    ensures
        res@ == s@,
{
    string_from(&chars_of(s))
}

/// Reads the answer of the recognizer probe.
pub fn speech_capability(probe: &CommandOutcome) -> (res: WindowsSpeechCapability)
    ensures
        capability_spec(*probe, res),
{
    match probe {
        CommandOutcome::Exited { success, stdout, stderr } => {
            if *success {
                let t = trim_chars(&chars_of(stdout.as_str()));
                let (name, culture) = match find_char_in(&t, '\t') {
                    Some(k) => (slice_chars(&t, 0, k), Some(slice_chars(&t, k + 1, t.len()))),
                    None => (slice_chars(&t, 0, t.len()), None),
                };
                assert(t@.subrange(0, t.len() as int) =~= t@);
                proof {
                    match find_char(t@, '\t') {
                        Some(k) => {
                            assert(name@ =~= t@.take(k));
                        },
                        None => {},
                    }
                }
                let recognizer_name = if name.len() > 0 {
                    Some(string_from(&name))
                } else {
                    None
                };
                let culture = match culture {
                    Some(c) => {
                        if c.len() > 0 {
                            Some(string_from(&c))
                        } else {
                            None
                        }
                    },
                    None => None,
                };
                let available = recognizer_name.is_some();
                WindowsSpeechCapability {
                    available,
                    recognizer_name,
                    culture,
                    shortcut: WINDOWS_SPEECH_SHORTCUT,
                    details: if available {
                        text(
                            "Windows 本地 System.Speech 识别器可用；识别文本会继续经过 iterate 的纠错与肌肉记忆后处理。",
                        )
                    } else {
                        text("Windows 未安装可用的 System.Speech 识别器。")
                    },
                }
            } else {
                let mut m = chars_of("Windows 语音识别器探测失败：");
                append_chars(&mut m, &trim_chars(&chars_of(stderr.as_str())));
                WindowsSpeechCapability {
                    available: false,
                    recognizer_name: None,
                    culture: None,
                    shortcut: WINDOWS_SPEECH_SHORTCUT,
                    details: string_from(&m),
                }
            }
        },
        CommandOutcome::SpawnFailed(e) => WindowsSpeechCapability {
            available: false,
            recognizer_name: None,
            culture: None,
            shortcut: WINDOWS_SPEECH_SHORTCUT,
            details: launch_error_of(e),
        },
    }
}

/// What a recognition's answer means: its trimmed text (nothing when it heard nothing),
/// or why it failed.
pub open spec fn recognition_spec(o: CommandOutcome) -> Result<Option<Seq<char>>, Seq<char>> {
    match o {
        CommandOutcome::SpawnFailed(e) => Err(launch_error(e@)),
        CommandOutcome::Exited { success, stdout, stderr } => if !success {
            if trim(stderr@).len() == 0 {
                Err("Windows 语音识别失败"@)
            } else {
                Err("Windows 语音识别失败: "@ + trim(stderr@))
            }
        } else if trim(stdout@).len() == 0 {
            Ok(None)
        } else {
            Ok(Some(trim(stdout@)))
        },
    }
}

/// Reads the answer of one recognition.
pub fn recognize_once(answer: &CommandOutcome) -> (res: Result<Option<String>, String>)
    ensures
        match recognition_spec(*answer) {
            Ok(None) => res matches Ok(None),
            Ok(Some(t)) => (res matches Ok(Some(r)) && r@ == t),
            Err(e) => (res matches Err(m) && m@ == e),
        },
{
    match answer {
        CommandOutcome::SpawnFailed(e) => Err(launch_error_of(e)),
        CommandOutcome::Exited { success, stdout, stderr } => {
            if !*success {
                let t = trim_chars(&chars_of(stderr.as_str()));
                if t.len() == 0 {
                    return Err(text("Windows 语音识别失败"));
                }
                let mut m = chars_of("Windows 语音识别失败: ");
                append_chars(&mut m, &t);
                return Err(string_from(&m));
            }
            let t = trim_chars(&chars_of(stdout.as_str()));
            if t.len() == 0 {
                Ok(None)
            } else {
                Ok(Some(string_from(&t)))
            }
        },
    }
}

/// The clipboard's text from the answer of the reading script: what it printed, when it
/// ran successfully.
pub fn read_clipboard_text(answer: &CommandOutcome) -> (res: Option<String>)
    ensures
        match answer {
            CommandOutcome::Exited { success: true, stdout, .. } => (res matches Some(t) && t@
                == stdout@),
            _ => res is None,
        },
{
    match answer {
        CommandOutcome::Exited { success, stdout, .. } => {
            if *success {
                Some(text(stdout.as_str()))
            } else {
                None
            }
        },
        CommandOutcome::SpawnFailed(_) => None,
    }
}

/// `s` with each `'` doubled, as a single-quoted PowerShell string needs.
pub open spec fn quote_doubled(s: Seq<char>) -> Seq<char>
    decreases s.len(),
{
    if s.len() == 0 {
        seq![]
    } else if s[0] == '\'' {
        seq!['\'', '\''] + quote_doubled(s.drop_first())
    } else {
        seq![s[0]] + quote_doubled(s.drop_first())
    }
}

/// The script that puts `text` on the clipboard.
pub fn write_clipboard_script(text_value: &str) -> (res: String)
    ensures
        res@ == "$ErrorActionPreference='Stop'; Set-Clipboard -Value '"@ + quote_doubled(text_value@)
            + "'"@,
{
    let t = chars_of(text_value);
    let mut m = chars_of("$ErrorActionPreference='Stop'; Set-Clipboard -Value '");
    let ghost head = m@;
    let mut i: usize = 0;
    assert(t@.skip(0) =~= t@);
    assert(m@ + quote_doubled(t@.skip(0)) =~= head + quote_doubled(text_value@));
    while i < t.len()
        invariant
            i <= t.len(),
            t@ == text_value@,
            m@ + quote_doubled(t@.skip(i as int)) == head + quote_doubled(text_value@),
        decreases t.len() - i,
    {
        let ghost rest = t@.skip(i as int);
        let ghost before = m@;
        assert(rest[0] == t@[i as int]);
        assert(rest.drop_first() =~= t@.skip(i + 1));
        if t[i] == '\'' {
            m.push('\'');
            m.push('\'');
            assert(before + (seq!['\'', '\''] + quote_doubled(rest.drop_first())) =~= m@
                + quote_doubled(t@.skip(i + 1)));
        } else {
            m.push(t[i]);
            assert(before + (seq![t@[i as int]] + quote_doubled(rest.drop_first())) =~= m@
                + quote_doubled(t@.skip(i + 1)));
        }
        i += 1;
    }
    assert(t@.skip(i as int) =~= seq![]);
    assert(m@ + seq![] =~= m@);
    append_str(&mut m, "'");
    string_from(&m)
}

/// The answer of the clipboard writing script: success, or why it failed.
pub fn write_clipboard_text(answer: &CommandOutcome) -> (res: Result<(), String>)
    ensures
        match answer {
            CommandOutcome::SpawnFailed(e) => (res matches Err(m) && m@ == launch_error(e@)),
            CommandOutcome::Exited { success, stderr, .. } => if *success {
                res is Ok
            } else {
                res matches Err(m) && m@ == "写入 Windows 剪贴板失败: "@ + trim(stderr@)
            },
        },
{
    match answer {
        CommandOutcome::SpawnFailed(e) => Err(launch_error_of(e)),
        CommandOutcome::Exited { success, stderr, .. } => {
            if *success {
                Ok(())
            } else {
                let mut m = chars_of("写入 Windows 剪贴板失败: ");
                append_chars(&mut m, &trim_chars(&chars_of(stderr.as_str())));
                Err(string_from(&m))
            }
        },
    }
}

} // verus!
