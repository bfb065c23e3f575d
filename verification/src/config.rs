//! What the user can configure.

use vstd::prelude::*;

use crate::models;
use crate::scalar;
use crate::text;

verus! {

/// A key together with the modifiers that are held with it.
pub struct HotkeySpec {
    pub ctrl: bool,
    pub alt: bool,
    pub shift: bool,
    pub meta: bool,
    pub key: String,
}

/// What a key combination holds.
#[verifier::ext_equal]
pub struct HotkeyView {
    pub ctrl: bool,
    pub alt: bool,
    pub shift: bool,
    pub meta: bool,
    pub key: Seq<char>,
}

impl View for HotkeySpec {
    type V = HotkeyView;

    open spec fn view(&self) -> HotkeyView {
        HotkeyView {
            ctrl: self.ctrl,
            alt: self.alt,
            shift: self.shift,
            meta: self.meta,
            key: self.key@,
        }
    }
}

/// The key that switches pinning unless another one is chosen.
pub fn default_hotkey_key() -> (key: String)
    ensures
        key@ == "T"@,
{
    text::copy_text("T")
}

/// The combination that switches pinning unless another one is chosen.
pub open spec fn default_hotkey() -> HotkeyView {
    HotkeyView { ctrl: true, alt: true, shift: false, meta: false, key: "T"@ }
}

impl Default for HotkeySpec {
    fn default() -> (spec: HotkeySpec)
        ensures
            spec@ == default_hotkey(),
    {
        HotkeySpec {
            ctrl: true,
            alt: true,
            shift: false,
            meta: false,
            key: default_hotkey_key(),
        }
    }
}

/// `part`, where it is there.
pub open spec fn part_if(there: bool, part: Seq<char>) -> Seq<Seq<char>> {
    if there {
        seq![part]
    } else {
        Seq::empty()
    }
}

/// The names of the held modifiers, and the key behind them.
pub open spec fn hotkey_parts(spec: HotkeyView) -> Seq<Seq<char>> {
    part_if(spec.ctrl, "Ctrl"@) + part_if(spec.alt, "Alt"@) + part_if(spec.shift, "Shift"@)
        + part_if(spec.meta, "Win"@) + seq![spec.key]
}

/// A combination as it is shown: modifiers and key with plus signs between them.
pub open spec fn hotkey_text(spec: HotkeyView) -> Seq<char> {
    text::join(hotkey_parts(spec), " + "@)
}

impl HotkeySpec {
    /// The combination as it is shown.
    pub fn display(&self) -> (shown: String)
        ensures
            shown@ == hotkey_text(self@),
    {
        let mut parts: Vec<String> = Vec::new();
        if self.ctrl {
            parts.push(text::copy_text("Ctrl"));
        }
        if self.alt {
            parts.push(text::copy_text("Alt"));
        }
        if self.shift {
            parts.push(text::copy_text("Shift"));
        }
        if self.meta {
            parts.push(text::copy_text("Win"));
        }
        parts.push(text::copy_text(self.key.as_str()));
        proof {
            assert(text::texts_view(parts@) =~= hotkey_parts(self@));
        }
        text::join_texts(&parts, " + ")
    }

    /// An equal combination.
    pub fn copy(&self) -> (same: HotkeySpec)
        ensures
            same@ == self@,
    {
        HotkeySpec {
            ctrl: self.ctrl,
            alt: self.alt,
            shift: self.shift,
            meta: self.meta,
            key: text::copy_text(self.key.as_str()),
        }
    }
}

/// What is kept of the settings from one start to the next. The scale and the
/// opacity are held as the bits of their numbers.
pub struct Config {
    pub theme: usize,
    pub font_scale: u32,
    pub opacity: u32,
    pub hotkey: HotkeySpec,
    pub data_dir: Option<String>,
    pub log_level: String,
}

/// What a configuration holds.
#[verifier::ext_equal]
pub struct ConfigView {
    pub theme: nat,
    pub font_scale: u32,
    pub opacity: u32,
    pub hotkey: HotkeyView,
    pub data_dir: Option<Seq<char>>,
    pub log_level: Seq<char>,
}

impl View for Config {
    type V = ConfigView;

    open spec fn view(&self) -> ConfigView {
        ConfigView {
            theme: self.theme as nat,
            font_scale: self.font_scale,
            opacity: self.opacity,
            hotkey: self.hotkey@,
            data_dir: models::text_view(self.data_dir),
            log_level: self.log_level@,
        }
    }
}

/// The name of the log level unless another one is chosen.
pub fn default_log_level() -> (name: String)
    ensures
        name@ == "info"@,
{
    text::copy_text("info")
}

/// The configuration unless another one is kept.
pub open spec fn default_config() -> ConfigView {
    ConfigView {
        theme: 0,
        font_scale: scalar::ONE,
        opacity: scalar::ONE,
        hotkey: default_hotkey(),
        data_dir: None,
        log_level: "info"@,
    }
}

impl Default for Config {
    fn default() -> (config: Config)
        ensures
            config@ == default_config(),
    {
        Config {
            theme: 0,
            font_scale: scalar::ONE,
            opacity: scalar::ONE,
            hotkey: HotkeySpec::default(),
            data_dir: None,
            log_level: default_log_level(),
        }
    }
}

/// A combination is shown with its modifiers in a fixed order and its key last,
/// each two with a plus sign between: a modifier that is held stands before
/// what is shown without it.
pub proof fn combinations_show_what_is_held(spec: HotkeyView)
    ensures
        ({
            let bare = HotkeyView { ctrl: false, alt: false, shift: false, meta: false, ..spec };
            let meta = HotkeyView { ctrl: false, alt: false, shift: false, ..spec };
            let shift = HotkeyView { ctrl: false, alt: false, ..spec };
            let alt = HotkeyView { ctrl: false, ..spec };
            &&& hotkey_text(bare) == spec.key
            &&& spec.meta ==> hotkey_text(meta) == "Win"@ + " + "@ + spec.key
            &&& spec.shift ==> hotkey_text(shift) == "Shift"@ + " + "@ + hotkey_text(meta)
            &&& spec.alt ==> hotkey_text(alt) == "Alt"@ + " + "@ + hotkey_text(shift)
            &&& spec.ctrl ==> hotkey_text(spec) == "Ctrl"@ + " + "@ + hotkey_text(alt)
        }),
{
    let bare = HotkeyView { ctrl: false, alt: false, shift: false, meta: false, ..spec };
    let meta = HotkeyView { ctrl: false, alt: false, shift: false, ..spec };
    let shift = HotkeyView { ctrl: false, alt: false, ..spec };
    let alt = HotkeyView { ctrl: false, ..spec };
    let sep = " + "@;
    assert(hotkey_parts(bare) =~= seq![spec.key]);
    text::lemma_join_front("Win"@, hotkey_parts(bare), sep);
    text::lemma_join_front("Shift"@, hotkey_parts(meta), sep);
    text::lemma_join_front("Alt"@, hotkey_parts(shift), sep);
    text::lemma_join_front("Ctrl"@, hotkey_parts(alt), sep);
    if spec.meta {
        assert(hotkey_parts(meta) =~= seq!["Win"@] + hotkey_parts(bare));
    }
    if spec.shift {
        assert(hotkey_parts(shift) =~= seq!["Shift"@] + hotkey_parts(meta));
    }
    if spec.alt {
        assert(hotkey_parts(alt) =~= seq!["Alt"@] + hotkey_parts(shift));
    }
    if spec.ctrl {
        assert(hotkey_parts(spec) =~= seq!["Ctrl"@] + hotkey_parts(alt));
    }
}

/// What a combination and a configuration hold is what their fields hold.
pub proof fn settings_hold_their_fields(spec: HotkeySpec, config: Config)
    ensures
        (spec@.ctrl, spec@.alt, spec@.shift, spec@.meta) == (
            spec.ctrl,
            spec.alt,
            spec.shift,
            spec.meta,
        ),
        spec@.key == spec.key@,
        config@.theme == config.theme,
        config@.font_scale == config.font_scale,
        config@.opacity == config.opacity,
        config@.hotkey == config.hotkey@,
        config@.log_level == config.log_level@,
        config.data_dir is Some <==> config@.data_dir is Some,
        config.data_dir is Some ==> config@.data_dir->0 == config.data_dir->0@,
{
}

} // verus!
