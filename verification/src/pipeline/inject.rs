//! Putting text into the focused application. Dictation types the text
//! with synthetic keystrokes first, since many games ignore a clipboard
//! paste; drafts go through the clipboard and Ctrl+V. The keyboard and the
//! clipboard are outside: these functions decide the next step from how
//! the previous one went.
use vstd::prelude::*;

use crate::text::chars_of;

verus! {

/// How the text went in.
#[derive(Debug, Clone, PartialEq, Eq, Structural)]
pub enum InjectMethod {
    /// Written to the clipboard and pasted with a synthetic Ctrl+V.
    Enigo,
    /// Typed with synthetic Unicode keystrokes.
    DirectText,
    /// Written to the clipboard, but the paste keystroke failed: the user
    /// pastes by hand.
    ClipboardOnly,
}

/// How to try to put the text in.
#[derive(Debug, Clone, Copy, PartialEq, Eq, Structural)]
pub enum InjectStrategy {
    /// Clipboard and Ctrl+V.
    ClipboardPaste,
    /// Synthetic typing, then clipboard and Ctrl+V if typing fails.
    DirectText,
}

/// The next step of putting text in.
#[derive(Debug, Clone, PartialEq, Eq)]
pub enum InjectStep {
    /// Nothing is left to do: the text went in this way.
    Done(InjectMethod),
    /// The text could not go in.
    Failed(String),
    /// Type the text; report with [`after_typing`].
    TypeText,
    /// Write the text to the clipboard; report with [`after_clipboard`].
    WriteClipboard,
    /// Press Ctrl+V; report with [`after_paste`].
    PressPaste,
}

/// The first step of putting `text` in with `strategy`: an empty text
/// needs nothing done.
pub fn insert(text: &str, strategy: InjectStrategy) -> (step: InjectStep)
    ensures
        text@.len() == 0 ==> step == InjectStep::Done(InjectMethod::Enigo),
        text@.len() > 0 && strategy == InjectStrategy::DirectText ==> step == InjectStep::TypeText,
        text@.len() > 0 && strategy == InjectStrategy::ClipboardPaste ==> step
            == InjectStep::WriteClipboard,
{
    let v = chars_of(text);
    if v.len() == 0 {
        InjectStep::Done(InjectMethod::Enigo)
    } else if strategy == InjectStrategy::DirectText {
        InjectStep::TypeText
    } else {
        InjectStep::WriteClipboard
    }
}

/// The first step of pasting `text` through the clipboard.
pub fn paste(text: &str) -> (step: InjectStep)
    ensures
        text@.len() == 0 ==> step == InjectStep::Done(InjectMethod::Enigo),
        text@.len() > 0 ==> step == InjectStep::WriteClipboard,
{
    insert(text, InjectStrategy::ClipboardPaste)
}

/// After typing: done when it worked, else on to the clipboard.
pub fn after_typing(result: Result<(), String>) -> (step: InjectStep)
    ensures
        result is Ok ==> step == InjectStep::Done(InjectMethod::DirectText),
        result is Err ==> step == InjectStep::WriteClipboard,
{
    match result {
        Ok(()) => InjectStep::Done(InjectMethod::DirectText),
        Err(_) => InjectStep::WriteClipboard,
    }
}

/// After writing the clipboard: a failure is final, else press Ctrl+V.
pub fn after_clipboard(result: Result<(), String>) -> (step: InjectStep)
    ensures
        result is Ok ==> step == InjectStep::PressPaste,
        result matches Err(m) ==> step == InjectStep::Failed(m),
{
    match result {
        Ok(()) => InjectStep::PressPaste,
        Err(m) => InjectStep::Failed(m),
    }
}

/// After pressing Ctrl+V: a failed keystroke leaves the text on the
/// clipboard for the user, which still counts as done.
pub fn after_paste(result: Result<(), String>) -> (step: InjectStep)
    ensures
        result is Ok ==> step == InjectStep::Done(InjectMethod::Enigo),
        result is Err ==> step == InjectStep::Done(InjectMethod::ClipboardOnly),
{
    match result {
        Ok(()) => InjectStep::Done(InjectMethod::Enigo),
        Err(_) => InjectStep::Done(InjectMethod::ClipboardOnly),
    }
}

/// A synthetic key press.
#[derive(Debug, Clone, Copy, PartialEq, Eq)]
pub enum Keystroke {
    Return,
    Tab,
    Unicode(char),
}

/// The keystroke of one character: none for a carriage return.
pub open spec fn keystrokes_of_char(c: char) -> Seq<Keystroke> {
    if c == '\n' {
        seq![Keystroke::Return]
    } else if c == '\r' {
        Seq::empty()
    } else if c == '\t' {
        seq![Keystroke::Tab]
    } else {
        seq![Keystroke::Unicode(c)]
    }
}

/// The keystrokes that type `s`, up to its first NUL character.
pub open spec fn keystrokes(s: Seq<char>) -> Seq<Keystroke>
    decreases s.len(),
{
    if s.len() == 0 {
        Seq::empty()
    } else if s[0] == '\0' {
        Seq::empty()
    } else {
        keystrokes_of_char(s[0]) + keystrokes(s.drop_first())
    }
}

proof fn lemma_plain_char(before: Seq<Keystroke>, c: char)
    requires
        c != '\n',
        c != '\r',
        c != '\t',
    ensures
        before.push(Keystroke::Unicode(c)) == before + keystrokes_of_char(c),
{
    assert(keystrokes_of_char(c) =~= seq![Keystroke::Unicode(c)]);
    assert(before.push(Keystroke::Unicode(c)) =~= before + keystrokes_of_char(c));
}

/// How to type a text: the keystrokes, and the error to report once they
/// are typed when the text holds a NUL character.
#[derive(Debug, Clone, PartialEq, Eq)]
pub struct TypingPlan {
    pub keys: Vec<Keystroke>,
    pub error: Option<String>,
}

/// Plans typing `text`: each character becomes its keystroke, a NUL stops
/// the typing with an error.
pub fn typing_plan(text: &str) -> (p: TypingPlan)
    ensures
        p.keys@ == keystrokes(text@),
        p.error is Some <==> text@.contains('\0'),
        p.error matches Some(m) ==> m@ == "text contains null byte"@,
{
    let v = chars_of(text);
    let mut keys: Vec<Keystroke> = Vec::new();
    let mut i: usize = 0;
    assert(v@.skip(0) =~= v@);
    assert(keys@ + keystrokes(v@) =~= keystrokes(v@));
    while i < v.len()
        invariant
            i <= v.len(),
            v@ == text@,
            forall|j: int| 0 <= j < i ==> v@[j] != '\0',
            keystrokes(v@) == keys@ + keystrokes(v@.skip(i as int)),
        decreases v.len() - i,
    {
        assert(v@.skip(i as int).drop_first() =~= v@.skip(i + 1));
        if v[i] == '\0' {
            assert(keystrokes(v@.skip(i as int)) =~= Seq::<Keystroke>::empty());
            assert(keys@ + Seq::<Keystroke>::empty() =~= keys@);
            assert(text@.contains('\0')) by {
                assert(text@[i as int] == '\0');
            }
            return TypingPlan { keys, error: Some(crate::text::owned("text contains null byte")) };
        }
        let ghost before = keys@;
        let c = v[i];
        if c == '\n' {
            keys.push(Keystroke::Return);
            assert(keys@ =~= before + keystrokes_of_char(c));
        } else if c == '\r' {
            assert(keys@ =~= before + keystrokes_of_char(c));
        } else if c == '\t' {
            keys.push(Keystroke::Tab);
            assert(keys@ =~= before + keystrokes_of_char(c));
        } else {
            keys.push(Keystroke::Unicode(c));
            proof {
                lemma_plain_char(before, c);
            }
        }
        assert(before + keystrokes(v@.skip(i as int)) =~= keys@ + keystrokes(v@.skip(i + 1)));
        i += 1;
    }
    assert(v@.skip(v.len() as int) =~= Seq::<char>::empty());
    assert(keys@ + Seq::<Keystroke>::empty() =~= keys@);
    assert(!text@.contains('\0'));
    TypingPlan { keys, error: None }
}

} // verus!
