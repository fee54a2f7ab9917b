//! The keyboard: keys, modifier flags, which flags go down with a key, and
//! the pace at which a string is typed.
//!
//! A character is typed the way an X server takes it, by its key symbol, so
//! the shift key has to be asked for where the character needs it.

use crate::geometry::round_div;
use crate::geometry::Ratio;
use rand::Rng;
use vstd::prelude::*;

verus! {

/// Device-independent modifier flags.
#[derive(Clone, Copy, Debug, PartialEq, Eq, Structural)]
pub enum Flag {
    Shift,
    Control,
    Alt,
    Meta,
    Help,
}

/// Device-independent key codes.
#[derive(Clone, Copy, Debug, PartialEq, Eq, Structural)]
pub enum KeyCode {
    F1,
    F2,
    F3,
    F4,
    F5,
    F6,
    F7,
    F8,
    F9,
    F10,
    F11,
    F12,
    LeftArrow,
    Control,
    RightArrow,
    DownArrow,
    End,
    UpArrow,
    PageUp,
    Alt,
    Return,
    PageDown,
    Delete,
    Home,
    Escape,
    Backspace,
    Meta,
    CapsLock,
    Shift,
    Tab,
}

/// Something that stands for a key: a character, or a key code.
pub trait KeyCodeConvertible {
    /// The character that the key types, if it is given by one.
    spec fn spec_character(&self) -> Option<char>;

    /// The character that the key types, if it is given by one.
    fn character(&self) -> (c: Option<char>)
        ensures
            c == self.spec_character(),
    ;

    /// The flags that the key carries of itself: none.
    fn flags(&self) -> (flags: Vec<Flag>)
        ensures
            flags@.len() == 0,
    ;
}

/// The key that types a character.
#[derive(Clone, Copy, Debug)]
pub struct Character(pub char);

/// The key with a key code.
#[derive(Clone, Copy, Debug)]
pub struct Code(pub KeyCode);

impl KeyCodeConvertible for Character {
    open spec fn spec_character(&self) -> Option<char> {
        Some(self.0)
    }

    fn character(&self) -> (c: Option<char>) {
        Some(self.0)
    }

    fn flags(&self) -> (flags: Vec<Flag>) {
        Vec::new()
    }
}

impl KeyCodeConvertible for Code {
    open spec fn spec_character(&self) -> Option<char> {
        None
    }

    fn character(&self) -> (c: Option<char>) {
        None
    }

    fn flags(&self) -> (flags: Vec<Flag>) {
        Vec::new()
    }
}

/// Whether a character has the Unicode property `Uppercase`.
pub uninterp spec fn is_uppercase(c: char) -> bool;

/// `char::is_uppercase`: whether the character has the Unicode property
/// `Uppercase`.
#[verifier::external_body]
fn char_is_uppercase(c: char) -> (uppercase: bool)
    ensures
        uppercase == is_uppercase(c),
{
    c.is_uppercase()
}

/// A punctuation character that is typed with the shift key held.
pub open spec fn is_shifted_punctuation(c: char) -> bool {
    c == '!' || c == '#' || c == '$' || c == '%' || c == '&' || c == '(' || c == ')' || c == '*'
        || c == '+' || c == ':' || c == '<' || c == '>' || c == '?' || c == '@' || c == '{' || c
        == '|' || c == '}' || c == '~'
}

/// The flags that typing a character takes.
pub open spec fn spec_flags_for_char(c: char) -> Seq<Flag> {
    if is_uppercase(c) || is_shifted_punctuation(c) {
        seq![Flag::Shift]
    } else {
        Seq::empty()
    }
}

/// The flags that a key brings with it: those of its character, if it is
/// given by one.
pub open spec fn key_flags<T: KeyCodeConvertible>(key: T) -> Seq<Flag> {
    match key.spec_character() {
        Some(c) => spec_flags_for_char(c),
        None => Seq::empty(),
    }
}

/// Those of `key_flags` that are not among `flags`, in their order.
pub open spec fn missing_flags(key_flags: Seq<Flag>, flags: Seq<Flag>) -> Seq<Flag>
    decreases key_flags.len(),
{
    if key_flags.len() == 0 {
        Seq::empty()
    } else {
        let before = missing_flags(key_flags.drop_last(), flags);
        if flags.contains(key_flags.last()) {
            before
        } else {
            before.push(key_flags.last())
        }
    }
}

/// The flags that typing a character takes: shift for an uppercase letter
/// and for the punctuation that is typed with shift, none otherwise.
pub fn flags_for_char(character: char) -> (flags: Vec<Flag>)
    ensures
        flags@ == spec_flags_for_char(character),
{
    let mut flags: Vec<Flag> = Vec::new();
    if char_is_uppercase(character) || character == '!' || character == '#' || character == '$'
        || character == '%' || character == '&' || character == '(' || character == ')'
        || character == '*' || character == '+' || character == ':' || character == '<'
        || character == '>' || character == '?' || character == '@' || character == '{'
        || character == '|' || character == '}' || character == '~' {
        flags.push(Flag::Shift);
        assert(flags@ =~= seq![Flag::Shift]);
    }
    flags
}

/// Whether `flag` is one of `flags`.
fn has_flag(flags: &[Flag], flag: Flag) -> (found: bool)
    ensures
        found == flags@.contains(flag),
{
    let mut i: usize = 0;
    while i < flags.len()
        invariant
            i <= flags@.len(),
            forall|k: int| 0 <= k < i ==> flags@[k] != flag,
        decreases flags@.len() - i,
    {
        if flags[i] == flag {
            return true;
        }
        i = i + 1;
    }
    false
}

/// A key to be pressed or released, with the flags that go with it.
pub struct KeyToggle<T> {
    pub key: T,
    pub down: bool,
    pub flags: Vec<Flag>,
}

/// What holding down (`down`) or releasing a key with the given flags comes
/// to: the key goes with the flags given and, after them, with those that its
/// character takes and that are not among them already.
pub fn toggle<T: KeyCodeConvertible>(key: T, down: bool, flags: &[Flag]) -> (event: KeyToggle<T>)
    ensures
        event.key == key,
        event.down == down,
        event.flags@ == flags@ + missing_flags(key_flags(key), flags@),
{
    let key_flags: Vec<Flag> = match key.character() {
        Some(c) => flags_for_char(c),
        None => Vec::new(),
    };
    let mut appended_flags: Vec<Flag> = Vec::new();
    let mut i: usize = 0;
    while i < flags.len()
        invariant
            i <= flags@.len(),
            appended_flags@ == flags@.take(i as int),
        decreases flags@.len() - i,
    {
        appended_flags.push(flags[i]);
        assert(flags@.take(i + 1) =~= flags@.take(i as int).push(flags@[i as int]));
        i = i + 1;
    }
    assert(flags@.take(flags@.len() as int) =~= flags@);
    let mut j: usize = 0;
    while j < key_flags.len()
        invariant
            j <= key_flags@.len(),
            appended_flags@ == flags@ + missing_flags(key_flags@.take(j as int), flags@),
        decreases key_flags@.len() - j,
    {
        let flag = key_flags[j];
        proof {
            assert(key_flags@.take(j + 1).drop_last() =~= key_flags@.take(j as int));
            assert(key_flags@.take(j + 1).last() == flag);
        }
        if !has_flag(flags, flag) {
            appended_flags.push(flag);
        }
        assert(appended_flags@ =~= flags@ + missing_flags(key_flags@.take(j + 1), flags@));
        j = j + 1;
    }
    assert(key_flags@.take(key_flags@.len() as int) =~= key_flags@);
    KeyToggle { key, down, flags: appended_flags }
}

/// How fast a string is typed.
#[derive(Clone, Copy, Debug, PartialEq, Eq, Structural)]
pub struct Pace {
    /// Milliseconds from one character to the next, before noise.
    pub ms_per_character: u64,
    /// Milliseconds for which a key is held, and again for which it rests.
    pub ms_per_stroke: u64,
    /// The noise added to each rest is below this many milliseconds.
    pub tolerance: u64,
}

/// One character of a string that is being typed.
#[derive(Clone, Copy, Debug, PartialEq, Eq, Structural)]
pub struct Keystroke {
    pub character: char,
    /// Milliseconds between pressing the key and releasing it.
    pub hold_ms: u64,
    /// Milliseconds to wait after the key's release.
    pub pause_ms: u64,
}

/// `v` cut back to the largest `u64`.
pub open spec fn cut_to_u64(v: int) -> int {
    if v <= u64::MAX {
        v
    } else {
        u64::MAX as int
    }
}

/// The pace of typing `wpm` words a minute, a word being five characters,
/// with `noise` as the fraction of the time per character by which a rest
/// may grow. At zero words a minute nothing is waited for. Every number is
/// rounded to the nearest millisecond, halves up.
pub open spec fn spec_pace(wpm: Ratio, noise: Ratio) -> Pace {
    let ms_per_character = if wpm.numer == 0 {
        0
    } else {
        round_div(12000 * wpm.denom, wpm.numer as int)
    };
    Pace {
        ms_per_character: ms_per_character as u64,
        ms_per_stroke: round_div(ms_per_character, 2) as u64,
        tolerance: cut_to_u64(noise.apply(ms_per_character)) as u64,
    }
}

/// What typing `character` at `pace` comes to when `drawn` is the noise that
/// was drawn for it.
pub open spec fn spec_keystroke(character: char, pace: Pace, drawn: u64) -> Keystroke {
    Keystroke {
        character,
        hold_ms: pace.ms_per_stroke,
        pause_ms: (pace.ms_per_stroke + drawn) as u64,
    }
}

/// A keystroke that typing `character` at `pace` may come to: one with some
/// noise below the tolerance, or with none where the tolerance is zero.
pub open spec fn is_keystroke_of(stroke: Keystroke, character: char, pace: Pace) -> bool {
    exists|drawn: u64|
        (drawn < pace.tolerance || (drawn == 0 && pace.tolerance == 0)) && stroke
            == #[trigger] spec_keystroke(character, pace, drawn)
}

/// `Rng::gen_range` on the generator of the thread, `rand::thread_rng()`: a
/// number drawn from `0..bound`. The call panics on an empty range, which
/// the precondition rules out.
#[verifier::external_body]
fn random_below(bound: u64) -> (drawn: u64)
    requires
        bound > 0,
    ensures
        drawn < bound,
{
    rand::thread_rng().gen_range(0..bound)
}

/// The pace of typing `wpm` words a minute with the given noise.
pub fn pace(wpm: Ratio, noise: Ratio) -> (pace: Pace)
    requires
        wpm.is_valid(),
        noise.is_valid(),
    ensures
        pace == spec_pace(wpm, noise),
        pace.ms_per_character <= 12000 * 0xffff_ffff,
        pace.ms_per_stroke <= 6000 * 0xffff_ffff,
{
    let ms_per_character: u64 = if wpm.numer == 0 {
        0
    } else {
        let n: u64 = 12000 * (wpm.denom as u64);
        let d: u64 = wpm.numer as u64;
        assert((2 * n + d) / (2 * d) <= n) by (nonlinear_arith)
            requires
                n >= 0,
                d >= 1,
        ;
        (2 * n + d) / (2 * d)
    };
    let ms_per_stroke: u64 = (2 * ms_per_character + 2) / 4;
    let tolerance: u128 = noise.scale(ms_per_character);
    let tolerance: u64 = if tolerance <= u64::MAX as u128 {
        tolerance as u64
    } else {
        u64::MAX
    };
    Pace { ms_per_character, ms_per_stroke, tolerance }
}

/// What typing `character` at `pace` comes to when `drawn` is the noise that
/// was drawn for it: the key is held for the time of a stroke, and rests for
/// as long again and the noise.
pub fn keystroke(character: char, pace: Pace, drawn: u64) -> (stroke: Keystroke)
    requires
        pace.ms_per_stroke + drawn <= u64::MAX,
    ensures
        stroke == spec_keystroke(character, pace, drawn),
{
    Keystroke { character, hold_ms: pace.ms_per_stroke, pause_ms: pace.ms_per_stroke + drawn }
}

/// The keystrokes that typing `string` at `wpm` words a minute comes to, one
/// for each character, in their order. Each rest is the time of a stroke and
/// a noise drawn at random below the tolerance of the pace. At zero words a
/// minute the string is typed as fast as possible.
pub fn type_string(string: &str, wpm: Ratio, noise: Ratio) -> (strokes: Vec<Keystroke>)
    requires
        wpm.is_valid(),
        noise.is_valid(),
        spec_pace(wpm, noise).ms_per_stroke + spec_pace(wpm, noise).tolerance <= u64::MAX,
    ensures
        strokes@.len() == string@.len(),
        forall|i: int|
            0 <= i < strokes@.len() ==> is_keystroke_of(
                #[trigger] strokes@[i],
                string@[i],
                spec_pace(wpm, noise),
            ),
{
    let pace = pace(wpm, noise);
    let mut strokes: Vec<Keystroke> = Vec::new();
    for c in it: string.chars()
        invariant
            pace == spec_pace(wpm, noise),
            pace.ms_per_stroke + pace.tolerance <= u64::MAX,
            it.seq() == string@,
            strokes@.len() == it.index(),
            forall|i: int|
                0 <= i < strokes@.len() ==> is_keystroke_of(#[trigger] strokes@[i], string@[i], pace),
    {
        let drawn = if pace.tolerance > 0 {
            random_below(pace.tolerance)
        } else {
            0
        };
        let stroke = keystroke(c, pace, drawn);
        assert(stroke == spec_keystroke(c, pace, drawn));
        assert(is_keystroke_of(stroke, c, pace));
        strokes.push(stroke);
    }
    strokes
}

} // verus!
