//! Pop-up dialogs of the dashboard: how each key press edits or closes them.

use vstd::prelude::*;
use crate::text::{chars_eq_str, chars_of, parse_unsigned, parse_unsigned_spec, string_of, trim, trim_ws};

verus! {

/// A key press, as the dialogs distinguish them.
#[derive(Debug, Clone, Copy, PartialEq, Eq, Structural)]
pub enum Key {
    Enter,
    Esc,
    Tab,
    Backspace,
    Char(char),
    Other,
}

/// What a key press does to the open dialog.
#[derive(Debug, Clone, Copy, PartialEq, Eq, Structural)]
pub enum DialogStep {
    /// The dialog stays open with its edited contents.
    Editing,
    /// The dialog closes without acting.
    Closed,
    /// The dialog closes and its action is carried out.
    Submitted,
    /// The handler leaves the dialog slot as it found it.
    Untouched,
}

/// Appends `c` to the string.
fn push_char(s: &mut String, c: char)
    ensures
        final(s)@ == old(s)@.push(c),
{
    let mut v = chars_of(s.as_str());
    v.push(c);
    *s = string_of(&v);
}

/// Drops the last character of the string, if any.
fn pop_char(s: &mut String)
    ensures
        final(s)@ == (if old(s)@.len() == 0 { old(s)@ } else { old(s)@.drop_last() }),
{
    let v = chars_of(s.as_str());
    if v.len() > 0 {
        let mut w: Vec<char> = Vec::new();
        let mut k: usize = 0;
        while k + 1 < v.len()
            invariant
                k < v.len(),
                w@ == v@.take(k as int),
            decreases v.len() - k,
        {
            w.push(v[k]);
            k = k + 1;
            assert(w@ =~= v@.take(k as int));
        }
        assert(w@ =~= v@.drop_last());
        *s = string_of(&w);
    }
}

/// The text after a key press in a one-line input: backspace deletes, a character appends.
pub open spec fn edited(text: Seq<char>, key: Key) -> Seq<char> {
    match key {
        Key::Backspace => if text.len() == 0 { text } else { text.drop_last() },
        Key::Char(c) => text.push(c),
        _ => text,
    }
}

/// The magnet-link input: Enter submits a non-empty link and closes an empty one, Esc closes,
/// backspace and characters edit; other keys leave the dialog slot untouched.
pub fn magnet_input_key(text: &mut String, key: Key) -> (r: DialogStep)
    ensures
        final(text)@ == edited(old(text)@, key),
        r == (match key {
            Key::Enter => if old(text)@.len() > 0 { DialogStep::Submitted } else { DialogStep::Closed },
            Key::Esc => DialogStep::Closed,
            Key::Backspace | Key::Char(_) => DialogStep::Editing,
            _ => DialogStep::Untouched,
        }),
{
    match key {
        Key::Enter => if text.as_str().unicode_len() > 0 { DialogStep::Submitted } else { DialogStep::Closed },
        Key::Esc => DialogStep::Closed,
        Key::Backspace => {
            pop_char(text);
            DialogStep::Editing
        },
        Key::Char(c) => {
            push_char(text, c);
            DialogStep::Editing
        },
        _ => DialogStep::Untouched,
    }
}

/// A yes/no dialog confirms on Enter, `y` or `Y`; every key closes it.
pub fn is_confirm_key(key: Key) -> (r: bool)
    ensures
        r == (key == Key::Enter || key == Key::Char('y') || key == Key::Char('Y')),
{
    match key {
        Key::Enter => true,
        Key::Char(c) => c == 'y' || c == 'Y',
        _ => false,
    }
}

/// The manual-rename dialog: a title field and a year field.
#[derive(Debug, Clone)]
pub struct ManualRenameForm {
    pub title: String,
    pub year: String,
    pub active_field: usize,
}

/// `str::len`: the length of the string's UTF-8 encoding, in bytes.
pub open spec fn utf8_len(s: Seq<char>) -> usize {
    vstd::utf8::encode_utf8(s).len() as usize
}

/// An ASCII digit.
pub open spec fn is_ascii_digit(c: char) -> bool {
    '0' <= c && c <= '9'
}

/// The manual-rename dialog after a key press: Tab switches field; backspace edits the active
/// field (the title when the field number is zero, the year otherwise); a character goes into
/// the title, or into the year when it is a digit and the year holds fewer than four bytes;
/// Enter submits; Esc closes.
pub fn manual_rename_key(form: &mut ManualRenameForm, key: Key) -> (r: DialogStep)
    requires
        key == Key::Tab ==> old(form).active_field < usize::MAX,
    ensures
        key == Key::Tab ==> final(form).active_field == (old(form).active_field + 1) % 2,
        key != Key::Tab ==> final(form).active_field == old(form).active_field,
        final(form).title@ == (if old(form).active_field == 0 {
            match key {
                Key::Backspace | Key::Char(_) => edited(old(form).title@, key),
                _ => old(form).title@,
            }
        } else {
            old(form).title@
        }),
        final(form).year@ == (if old(form).active_field != 0 {
            match key {
                Key::Backspace => edited(old(form).year@, key),
                Key::Char(c) => if is_ascii_digit(c) && utf8_len(old(form).year@) < 4 {
                    old(form).year@.push(c)
                } else {
                    old(form).year@
                },
                _ => old(form).year@,
            }
        } else {
            old(form).year@
        }),
        r == (match key {
            Key::Tab | Key::Backspace | Key::Char(_) => DialogStep::Editing,
            Key::Enter => DialogStep::Submitted,
            Key::Esc => DialogStep::Closed,
            Key::Other => DialogStep::Untouched,
        }),
{
    match key {
        Key::Tab => {
            form.active_field = (form.active_field + 1) % 2;
            assert(form.year@ == old(form).year@);
            DialogStep::Editing
        },
        Key::Backspace => {
            if form.active_field == 0 {
                pop_char(&mut form.title);
            } else {
                pop_char(&mut form.year);
            }
            DialogStep::Editing
        },
        Key::Char(c) => {
            if form.active_field == 0 {
                push_char(&mut form.title, c);
            } else if '0' <= c && c <= '9' && form.year.as_str().len() < 4 {
                push_char(&mut form.year, c);
            }
            assert(form.year@ == (if old(form).active_field != 0 && is_ascii_digit(c) && utf8_len(old(form).year@) < 4 { old(form).year@.push(c) } else { old(form).year@ }));
            DialogStep::Editing
        },
        Key::Enter => DialogStep::Submitted,
        Key::Esc => DialogStep::Closed,
        Key::Other => DialogStep::Untouched,
    }
}

/// The year a submitted manual-rename dialog applies: the field, trimmed, as a number.
pub fn manual_form_year(year: &str) -> (r: Option<u32>)
    ensures
        r == (match parse_unsigned_spec(trim_ws(year@), u32::MAX as nat) {
            Some(v) => Some(v as u32),
            None => None,
        }),
{
    let t = trim(&chars_of(year));
    match parse_unsigned(&t, 4294967295u64) {
        Some(v) => Some(v as u32),
        None => None,
    }
}

/// What a key press in the permanent-deletion dialog leads to.
#[derive(Debug, Clone, Copy, PartialEq, Eq, Structural)]
pub enum DeleteStep {
    /// The typed text changed; the dialog stays.
    Editing,
    /// `DELETE` was typed and confirmed.
    Confirmed,
    /// Enter without `DELETE`: the user is told to type it.
    NeedsWord,
    /// Esc: the dialog closes.
    Closed,
    /// Another key: the handler leaves the dialog slot as it found it.
    Untouched,
}

/// The permanent-deletion dialog: backspace edits, a character is added while fewer than ten
/// bytes are typed, Enter confirms only the word `DELETE`, Esc closes.
pub fn delete_media_key(typed: &mut String, key: Key) -> (r: DeleteStep)
    ensures
        final(typed)@ == (match key {
            Key::Backspace => edited(old(typed)@, key),
            Key::Char(c) => if utf8_len(old(typed)@) < 10 {
                old(typed)@.push(c)
            } else {
                old(typed)@
            },
            _ => old(typed)@,
        }),
        r == (match key {
            Key::Backspace | Key::Char(_) => DeleteStep::Editing,
            Key::Enter => if old(typed)@ == "DELETE"@ { DeleteStep::Confirmed } else { DeleteStep::NeedsWord },
            Key::Esc => DeleteStep::Closed,
            _ => DeleteStep::Untouched,
        }),
{
    match key {
        Key::Backspace => {
            pop_char(typed);
            assert(typed@ == edited(old(typed)@, key));
            DeleteStep::Editing
        },
        Key::Char(c) => {
            let n = typed.as_str().len();
            assert(n == utf8_len(typed@));
            if n < 10 {
                push_char(typed, c);
                assert(typed@ == old(typed)@.push(c));
            }
            DeleteStep::Editing
        },
        Key::Enter => {
            let t = chars_of(typed.as_str());
            if chars_eq_str(&t, "DELETE") { DeleteStep::Confirmed } else { DeleteStep::NeedsWord }
        },
        Key::Esc => DeleteStep::Closed,
        _ => DeleteStep::Untouched,
    }
}

} // verus!
