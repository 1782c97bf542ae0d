//! Input classification.
//!
//! [`classify`] turns one raw terminal event, together with the current
//! content of the typed-path accumulator, into exactly one [`Intent`].
//! It is pure: it neither mutates the accumulator nor keeps state. The
//! surrounding loop owns the accumulator and applies the returned
//! intent (append, erase, clear-and-process, or stop).

use vstd::prelude::*;

use crate::text::is_image_path;
use crate::text::is_quote;
use crate::text::normalize_path;
use crate::text::normalized;
use crate::text::has_image_extension;

verus! {

/// The key part of a key-press event, already decoded by the terminal
/// layer.
#[derive(Clone, Copy, Debug, PartialEq, Eq)]
pub enum Key {
    /// The escape key.
    Esc,
    /// A printable character.
    Char(char),
    /// The commit key confirming the typed path.
    Enter,
    /// The erase-last-character key.
    Backspace,
    /// Any other key.
    Other,
}

/// A key press together with whether a control modifier was held.
#[derive(Clone, Copy, Debug, PartialEq, Eq)]
pub struct KeyInput {
    /// Which key was pressed.
    pub key: Key,
    /// Whether a control modifier was held.
    pub ctrl: bool,
}

/// One raw terminal event, as the input collaborator delivers it.
#[derive(Clone, Debug)]
pub enum RawEvent {
    /// A key press.
    Key(KeyInput),
    /// A bracketed-paste block: the whole pasted text as one event.
    Paste(Vec<char>),
    /// Any other event kind (focus, resize, mouse, ...).
    Other,
}

/// The classifier's decision for one event.
#[derive(Clone, Debug, PartialEq, Eq)]
pub enum Intent {
    /// End the session.
    Quit,
    /// Process the contained, already normalized, path text; the caller
    /// clears the accumulator afterwards.
    SubmitPath(Vec<char>),
    /// Append the character to the accumulator.
    AppendChar(char),
    /// Remove the accumulator's last character (a no-op when empty).
    RemoveLastChar,
    /// Do nothing.
    Ignore,
}

/// Mathematical image of an [`Intent`], with the path as a sequence.
pub enum IntentView {
    /// End the session.
    Quit,
    /// Process the contained normalized path text.
    SubmitPath(Seq<char>),
    /// Append the character to the accumulator.
    AppendChar(char),
    /// Remove the accumulator's last character.
    RemoveLastChar,
    /// Do nothing.
    Ignore,
}

impl View for Intent {
    type V = IntentView;

    open spec fn view(&self) -> IntentView {
        match self {
            Intent::Quit => IntentView::Quit,
            Intent::SubmitPath(p) => IntentView::SubmitPath(p@),
            Intent::AppendChar(c) => IntentView::AppendChar(*c),
            Intent::RemoveLastChar => IntentView::RemoveLastChar,
            Intent::Ignore => IntentView::Ignore,
        }
    }
}

/// A quit signal: the escape key, or a control-modified 'c' or 'd'.
pub open spec fn is_quit_key(k: KeyInput) -> bool {
    k.key == Key::Esc || (k.ctrl && (k.key == Key::Char('c') || k.key == Key::Char('d')))
}

/// The decision for one event against the accumulator content `acc`.
///
/// * A quit signal yields `Quit`, whatever the accumulator holds.
/// * A printable character usually yields `AppendChar`; but when it is
///   a quote and the grown accumulator is longer than two characters
///   and normalizes to text with a recognized image extension, the path
///   is auto-submitted on the spot.
/// * The commit key submits a non-empty accumulator, normalized,
///   without any extension filter; on an empty one it is ignored.
/// * The erase key yields `RemoveLastChar`; other keys are ignored.
/// * A paste block submits its normalized text directly, unless that
///   text is empty; the accumulator is bypassed entirely.
pub open spec fn classify_spec(event: RawEvent, acc: Seq<char>) -> IntentView {
    match event {
        RawEvent::Key(k) => {
            if is_quit_key(k) {
                IntentView::Quit
            } else {
                match k.key {
                    Key::Char(c) => {
                        if is_quote(c) && acc.push(c).len() > 2 && is_image_path(
                            normalized(acc.push(c)),
                        ) {
                            IntentView::SubmitPath(normalized(acc.push(c)))
                        } else {
                            IntentView::AppendChar(c)
                        }
                    },
                    Key::Enter => {
                        if acc.len() > 0 {
                            IntentView::SubmitPath(normalized(acc))
                        } else {
                            IntentView::Ignore
                        }
                    },
                    Key::Backspace => IntentView::RemoveLastChar,
                    _ => IntentView::Ignore,
                }
            }
        },
        RawEvent::Paste(text) => {
            if normalized(text@).len() > 0 {
                IntentView::SubmitPath(normalized(text@))
            } else {
                IntentView::Ignore
            }
        },
        RawEvent::Other => IntentView::Ignore,
    }
}

/// Copy of the accumulator, so the grown snapshot can be normalized
/// without touching the caller's buffer.
#[verifier::loop_isolation(false)]
fn copy_chars(v: &Vec<char>) -> (r: Vec<char>)
    ensures
        r@ == v@,
{
    let mut r: Vec<char> = Vec::new();
    let mut k: usize = 0;
    while k < v.len()
        invariant
            k <= v@.len(),
            r@ == v@.subrange(0, k as int),
        decreases v@.len() - k,
    {
        r.push(v[k]);
        proof {
            assert(r@ =~= v@.subrange(0, k as int + 1));
        }
        k += 1;
    }
    proof {
        assert(r@ =~= v@);
    }
    r
}

/// Classify one raw terminal event against the current accumulator
/// content, returning exactly the intent that [`classify_spec`] gives.
pub fn classify(event: &RawEvent, acc: &Vec<char>) -> (intent: Intent)
    ensures
        intent@ == classify_spec(*event, acc@),
{
    match event {
        RawEvent::Key(k) => {
            match k.key {
                Key::Esc => Intent::Quit,
                Key::Char(c) => {
                    if k.ctrl && (c == 'c' || c == 'd') {
                        Intent::Quit
                    } else {
                        let mut grown = copy_chars(acc);
                        grown.push(c);
                        if (c == '\'' || c == '"') && grown.len() > 2 {
                            let path = normalize_path(&grown);
                            if has_image_extension(&path) {
                                return Intent::SubmitPath(path);
                            }
                        }
                        Intent::AppendChar(c)
                    }
                },
                Key::Enter => {
                    if acc.len() > 0 {
                        Intent::SubmitPath(normalize_path(acc))
                    } else {
                        Intent::Ignore
                    }
                },
                Key::Backspace => Intent::RemoveLastChar,
                Key::Other => Intent::Ignore,
            }
        },
        RawEvent::Paste(text) => {
            let p = normalize_path(text);
            if p.len() > 0 {
                Intent::SubmitPath(p)
            } else {
                Intent::Ignore
            }
        },
        RawEvent::Other => Intent::Ignore,
    }
}

/// Quit precedence: a quit signal yields `Quit` whatever the
/// accumulator holds — never a submission.
pub proof fn lemma_quit_precedence(k: KeyInput, acc: Seq<char>)
    requires
        is_quit_key(k),
    ensures
        classify_spec(RawEvent::Key(k), acc) == IntentView::Quit,
{
}

} // verus!
