//! The global key combination: which keys it may have and how it is chosen.

use global_hotkey::hotkey::{Code, HotKey, Modifiers};
use vstd::prelude::*;

use crate::config::{HotkeySpec, HotkeyView};
use crate::text;

verus! {

/// How many keys a combination can have: letters, digits and twelve function keys.
pub const KEY_COUNT: usize = 48;

/// The name of the key at a place of the table: `A` to `Z`, `0` to `9`, `F1` to `F12`.
pub open spec fn key_name(index: int) -> Seq<char> {
    if index < 26 {
        seq![(65 + index) as char]
    } else if index < 36 {
        seq![(48 + index - 26) as char]
    } else {
        seq!['F'] + text::decimal((index - 35) as nat)
    }
}

/// Whether a key of the table has this name.
pub open spec fn is_key_name(name: Seq<char>) -> bool {
    exists|index: int| 0 <= index < KEY_COUNT && name == #[trigger] key_name(index)
}

/// Different keys have different names.
pub proof fn key_names_are_unique(a: int, b: int)
    requires
        0 <= a < KEY_COUNT,
        0 <= b < KEY_COUNT,
        key_name(a) == key_name(b),
    ensures
        a == b,
{
    reveal_with_fuel(text::decimal, 3);
    assert(key_name(a)[0] == key_name(b)[0]);
    if a >= 36 && b >= 36 {
        assert(key_name(a).skip(1) =~= text::decimal((a - 35) as nat));
        assert(key_name(b).skip(1) =~= text::decimal((b - 35) as nat));
        text::decimal_is_injective((a - 35) as nat, (b - 35) as nat);
    } else if a >= 36 {
        assert(key_name(a).len() >= 2);
    } else if b >= 36 {
        assert(key_name(b).len() >= 2);
    } else {
        let first = |k: int| if k < 26 { 65 + k } else { 48 + k - 26 };
        assert(key_name(a)[0] as int == first(a));
        assert(key_name(b)[0] as int == first(b));
    }
}

/// The name of the key at `index`.
pub fn name_of_key(index: usize) -> (name: String)
    requires
        index < KEY_COUNT,
    ensures
        name@ == key_name(index as int),
{
    let mut name = String::new();
    if index < 26 {
        name.push((65u8 + index as u8) as char);
    } else if index < 36 {
        name.push((48u8 + (index - 26) as u8) as char);
    } else {
        name.push('F');
        text::push_decimal(&mut name, (index - 35) as u64);
    }
    proof {
        assert(name@ =~= key_name(index as int));
    }
    name
}

/// The place in the table of the key with this name, `None` where there is none.
pub fn key_from_name(name: &str) -> (index: Option<usize>)
    ensures
        match index {
            Some(k) => k < KEY_COUNT && name@ == key_name(k as int),
            None => !is_key_name(name@),
        },
{
    let mut index: usize = 0;
    while index < KEY_COUNT
        invariant
            index <= KEY_COUNT,
            forall|k: int| 0 <= k < index ==> name@ != #[trigger] key_name(k),
        decreases KEY_COUNT - index,
    {
        if text::same_text(name_of_key(index).as_str(), name) {
            return Some(index);
        }
        index += 1;
    }
    None
}

// ---------------------------------------------------------------------------
// Combinations that can be registered

/// The name that the key at a place of the table has as a code of the keyboard.
pub open spec fn code_name(index: int) -> Seq<char> {
    if index < 26 {
        "Key"@ + key_name(index)
    } else if index < 36 {
        "Digit"@ + key_name(index)
    } else {
        key_name(index)
    }
}

/// The number of the code of the key at a place of the table.
pub open spec fn code_number(index: int) -> int {
    if index < 26 {
        19 + index
    } else if index < 36 {
        5 + (index - 26)
    } else {
        160 + (index - 36)
    }
}

/// The number of a set of modifiers.
pub open spec fn modifiers_number(ctrl: bool, alt: bool, shift: bool, meta: bool) -> int {
    (if alt {
        0x1int
    } else {
        0
    }) + (if ctrl {
        0x8int
    } else {
        0
    }) + (if meta {
        0x40int
    } else {
        0
    }) + (if shift {
        0x200int
    } else {
        0
    })
}

/// The identity of a combination: its modifiers in the upper half, its code in the lower.
pub open spec fn combination_id(ctrl: bool, alt: bool, shift: bool, meta: bool, index: int) -> int {
    modifiers_number(ctrl, alt, shift, meta) * 0x10000 + code_number(index)
}

/// A set of modifiers of `global_hotkey`.
#[verifier::external_type_specification]
#[verifier::external_body]
pub struct ExModifiers(Modifiers);

/// A code of the keyboard of `global_hotkey`.
#[verifier::external_type_specification]
#[verifier::external_body]
pub struct ExCode(Code);

/// A key combination of `global_hotkey`, with its identity.
#[verifier::external_type_specification]
pub struct ExHotKey(HotKey);

/// The combination that `HotKey::new` makes of these modifiers and of the code
/// with this name: modifiers, code and identity.
pub uninterp spec fn hotkey_of(
    ctrl: bool,
    alt: bool,
    shift: bool,
    meta: bool,
    code: Seq<char>,
) -> HotKey;

/// `HotKey::new` with `Modifiers` and with `Code::from_str`, which knows the
/// code of every key of the table by its name. The combination, in all its
/// fields, depends on the modifiers and the name alone. The identity that
/// `HotKey::id` gives is the bits of the modifiers, shifted up by sixteen, with
/// the number of the code; the modifiers are bit 0 for Alt, 3 for Control, 6 for
/// Meta and 9 for Shift, and the codes are numbered in the order of the `Code`
/// enumeration. `None` stands for a name that is no code.
#[verifier::external_body]
fn new_hotkey(ctrl: bool, alt: bool, shift: bool, meta: bool, code: &str) -> (made: Option<HotKey>)
    ensures
        made matches Some(m) ==> m == hotkey_of(ctrl, alt, shift, meta, code@),
        forall|k: int|
            0 <= k < KEY_COUNT && code@ == #[trigger] code_name(k) ==> made is Some
                && made->0.id == combination_id(ctrl, alt, shift, meta, k),
{
    let mut mods = Modifiers::empty();
    mods.set(Modifiers::CONTROL, ctrl);
    mods.set(Modifiers::ALT, alt);
    mods.set(Modifiers::SHIFT, shift);
    mods.set(Modifiers::META, meta);
    let key = code.parse::<Code>().ok()?;
    Some(HotKey::new(Some(mods), key))
}

/// The code name of the key with this name, `None` where the table has no such key.
pub fn code_from_name(name: &str) -> (code: Option<String>)
    ensures
        code is Some <==> is_key_name(name@),
        code matches Some(c) ==> exists|k: int|
            0 <= k < KEY_COUNT && name@ == #[trigger] key_name(k) && c@ == code_name(k),
{
    match key_from_name(name) {
        Some(index) => {
            let mut code = if index < 26 {
                text::copy_text("Key")
            } else if index < 36 {
                text::copy_text("Digit")
            } else {
                String::new()
            };
            text::push_text(&mut code, name);
            proof {
                assert(code@ =~= code_name(index as int));
            }
            Some(code)
        },
        None => None,
    }
}

/// Whether `made` is the combination of these modifiers with the key at a place
/// of the table, in all its fields, and has the identity of that combination.
pub open spec fn is_combination(
    made: HotKey,
    ctrl: bool,
    alt: bool,
    shift: bool,
    meta: bool,
    index: int,
) -> bool {
    &&& made == hotkey_of(ctrl, alt, shift, meta, code_name(index))
    &&& made.id == combination_id(ctrl, alt, shift, meta, index)
}

/// The combination that `spec` describes, `None` where the table has no such key.
pub fn spec_to_hotkey(spec: &HotkeySpec) -> (made: Option<HotKey>)
    ensures
        made is Some <==> is_key_name(spec.key@),
        made matches Some(m) ==> forall|k: int|
            0 <= k < KEY_COUNT && spec.key@ == #[trigger] key_name(k) ==> is_combination(
                m,
                spec.ctrl,
                spec.alt,
                spec.shift,
                spec.meta,
                k,
            ),
{
    match code_from_name(spec.key.as_str()) {
        Some(code) => {
            let made = new_hotkey(spec.ctrl, spec.alt, spec.shift, spec.meta, code.as_str());
            proof {
                let k = choose|k: int|
                    0 <= k < KEY_COUNT && spec.key@ == #[trigger] key_name(k) && code@ == code_name(
                        k,
                    );
                assert(made is Some);
                assert forall|j: int|
                    0 <= j < KEY_COUNT && spec.key@ == #[trigger] key_name(
                        j,
                    ) implies is_combination(
                    made->0,
                    spec.ctrl,
                    spec.alt,
                    spec.shift,
                    spec.meta,
                    j,
                ) by {
                    key_names_are_unique(k, j);
                }
            }
            made
        },
        None => None,
    }
}

/// Two combinations with the same identity are the same.
pub proof fn identities_tell_combinations_apart(a: HotkeyView, i: int, b: HotkeyView, j: int)
    requires
        0 <= i < KEY_COUNT,
        0 <= j < KEY_COUNT,
        a.key == key_name(i),
        b.key == key_name(j),
        combination_id(a.ctrl, a.alt, a.shift, a.meta, i) == combination_id(
            b.ctrl,
            b.alt,
            b.shift,
            b.meta,
            j,
        ),
    ensures
        a == b,
{
    assert(0 <= code_number(i) < 0x10000);
    assert(0 <= code_number(j) < 0x10000);
    assert(modifiers_number(a.ctrl, a.alt, a.shift, a.meta) == modifiers_number(
        b.ctrl,
        b.alt,
        b.shift,
        b.meta,
    ));
    assert(code_number(i) == code_number(j));
    assert(i == j);
}

/// The combination to register at the start: the configured one, or Ctrl, Alt
/// and T where that has no key of the table.
pub fn startup_hotkey(spec: &HotkeySpec) -> (made: HotKey)
    ensures
        forall|k: int|
            0 <= k < KEY_COUNT && spec.key@ == #[trigger] key_name(k) ==> is_combination(
                made,
                spec.ctrl,
                spec.alt,
                spec.shift,
                spec.meta,
                k,
            ),
        !is_key_name(spec.key@) ==> is_combination(made, true, true, false, false, 19),
{
    match spec_to_hotkey(spec) {
        Some(made) => made,
        None => {
            proof {
                reveal_strlit("T");
                assert("T"@ =~= key_name(19));
            }
            spec_to_hotkey(&HotkeySpec::default()).unwrap()
        },
    }
}

// ---------------------------------------------------------------------------
// Choosing a combination

/// What became of registering a combination.
pub enum Registration {
    /// The combination has no key of the table.
    Invalid,
    /// It was refused, for the given reason.
    Refused(String),
    /// It is registered.
    Done,
}

/// What is said of a combination that could not be registered.
pub open spec fn refusal_text(outcome: Registration) -> Option<Seq<char>> {
    match outcome {
        Registration::Invalid => Some("无效的快捷键组合"@),
        Registration::Refused(reason) => Some("快捷键可能被其他程序占用（"@ + reason@ + "）"@),
        Registration::Done => None,
    }
}

/// What is said of a combination that could not be registered, `None` where it was.
pub fn refusal(outcome: &Registration) -> (says: Option<String>)
    ensures
        crate::models::text_view(says) == refusal_text(*outcome),
{
    match outcome {
        Registration::Invalid => Some(text::copy_text("无效的快捷键组合")),
        Registration::Refused(reason) => {
            let mut says = text::copy_text("快捷键可能被其他程序占用（");
            text::push_text(&mut says, reason.as_str());
            text::push_text(&mut says, "）");
            Some(says)
        },
        Registration::Done => None,
    }
}

/// A key that was pressed, by its name, with the modifiers held.
pub struct KeyPress {
    pub key: String,
    pub ctrl: bool,
    pub alt: bool,
    pub shift: bool,
}

/// What a key press means while a new combination is being chosen.
pub enum Choice {
    /// Keep the old combination.
    Cancel,
    /// Neither Ctrl nor Alt is held.
    NeedsModifier,
    /// The key is not in the table.
    Unsupported,
    /// Take this combination.
    Take(HotkeySpec),
}

/// What a choice holds.
pub enum ChoiceView {
    Cancel,
    NeedsModifier,
    Unsupported,
    Take(HotkeyView),
}

impl View for Choice {
    type V = ChoiceView;

    open spec fn view(&self) -> ChoiceView {
        match self {
            Choice::Cancel => ChoiceView::Cancel,
            Choice::NeedsModifier => ChoiceView::NeedsModifier,
            Choice::Unsupported => ChoiceView::Unsupported,
            Choice::Take(spec) => ChoiceView::Take(spec@),
        }
    }
}

/// What a key press means while a new combination is being chosen: Escape gives
/// up, and a key of the table with Ctrl or Alt is taken.
pub open spec fn choice_of(key: Seq<char>, ctrl: bool, alt: bool, shift: bool) -> ChoiceView {
    if key == "Escape"@ {
        ChoiceView::Cancel
    } else if !ctrl && !alt {
        ChoiceView::NeedsModifier
    } else if is_key_name(key) {
        ChoiceView::Take(HotkeyView { ctrl, alt, shift, meta: false, key })
    } else {
        ChoiceView::Unsupported
    }
}

/// What a key press means while a new combination is being chosen.
pub fn choose_hotkey(press: &KeyPress) -> (choice: Choice)
    ensures
        choice@ == choice_of(press.key@, press.ctrl, press.alt, press.shift),
{
    if text::same_text(press.key.as_str(), "Escape") {
        return Choice::Cancel;
    }
    if !(press.ctrl || press.alt) {
        return Choice::NeedsModifier;
    }
    match key_from_name(press.key.as_str()) {
        Some(_) => Choice::Take(
            HotkeySpec {
                ctrl: press.ctrl,
                alt: press.alt,
                shift: press.shift,
                meta: false,
                key: text::copy_text(press.key.as_str()),
            },
        ),
        None => Choice::Unsupported,
    }
}

/// A combination that was taken has Ctrl or Alt and can be registered.
pub proof fn taken_combinations_are_usable(key: Seq<char>, ctrl: bool, alt: bool, shift: bool)
    requires
        choice_of(key, ctrl, alt, shift) is Take,
    ensures
        choice_of(key, ctrl, alt, shift)->0.ctrl || choice_of(key, ctrl, alt, shift)->0.alt,
        is_key_name(choice_of(key, ctrl, alt, shift)->0.key),
{
}

// ---------------------------------------------------------------------------
// What holds of keys

/// The keys of the table are the capital letters, the digits and the function
/// keys from F1 to F12, and no others.
pub proof fn keys_are_letters_digits_and_functions(name: Seq<char>, c: char, n: nat)
    ensures
        65 <= c as u32 <= 90 ==> is_key_name(seq![c]),
        48 <= c as u32 <= 57 ==> is_key_name(seq![c]),
        1 <= n <= 12 ==> is_key_name(seq!['F'] + text::decimal(n)),
        is_key_name(name) ==> {
            ||| name.len() == 1 && 65 <= name[0] as u32 <= 90
            ||| name.len() == 1 && 48 <= name[0] as u32 <= 57
            ||| exists|k: nat| 1 <= k <= 12 && name == seq!['F'] + #[trigger] text::decimal(k)
        },
{
    if 65 <= c as u32 <= 90 {
        assert(key_name(c as u32 - 65) =~= seq![c]);
    }
    if 48 <= c as u32 <= 57 {
        assert(key_name(c as u32 - 48 + 26) =~= seq![c]);
    }
    if 1 <= n <= 12 {
        assert(key_name(n as int + 35) =~= seq!['F'] + text::decimal(n));
    }
    if is_key_name(name) {
        let index = choose|index: int| 0 <= index < KEY_COUNT && name == #[trigger] key_name(index);
        if index >= 36 {
            let k = (index - 35) as nat;
            assert(name == seq!['F'] + text::decimal(k));
        }
    }
}

/// A key that is pressed with Ctrl or Alt is taken just as it was pressed; Escape
/// gives up, and without Ctrl and Alt or with another key nothing is taken.
pub proof fn combinations_are_taken_as_pressed(
    key: Seq<char>,
    ctrl: bool,
    alt: bool,
    shift: bool,
)
    ensures
        ({
            let choice = choice_of(key, ctrl, alt, shift);
            &&& choice is Cancel <==> key == "Escape"@
            &&& choice is NeedsModifier <==> key != "Escape"@ && !ctrl && !alt
            &&& choice is Unsupported <==> key != "Escape"@ && (ctrl || alt) && !is_key_name(key)
            &&& choice matches ChoiceView::Take(spec) ==> {
                &&& spec.key == key
                &&& spec.ctrl == ctrl
                &&& spec.alt == alt
                &&& spec.shift == shift
                &&& !spec.meta
            }
        }),
{
}

/// The code of a key is its name behind the word for its kind, and the name
/// alone for the function keys.
pub proof fn codes_are_named_by_kind(index: int)
    requires
        0 <= index < 48,
    ensures
        index < 26 ==> code_name(index) == "Key"@.push((65 + index) as char),
        26 <= index < 36 ==> code_name(index) == "Digit"@.push((22 + index) as char),
        36 <= index ==> code_name(index) == seq!['F'] + text::decimal((index - 35) as nat),
{
    if index < 26 {
        assert(code_name(index) =~= "Key"@.push((65 + index) as char));
    } else if index < 36 {
        assert(code_name(index) =~= "Digit"@.push((22 + index) as char));
    }
}

/// A refusal says why: that the combination is no good, or the reason that was given.
pub proof fn refusals_give_the_reason(outcome: Registration)
    ensures
        refusal_text(outcome) is None <==> outcome is Done,
        outcome is Invalid ==> refusal_text(outcome) == Some("无效的快捷键组合"@),
        outcome matches Registration::Refused(reason) ==> refusal_text(outcome) == Some(
            "快捷键可能被其他程序占用（"@ + reason@ + "）"@,
        ),
{
}

} // verus!
