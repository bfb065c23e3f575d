//! How buttons and check boxes look.

use vstd::prelude::*;

use crate::theme::{Paint, Role};

verus! {

/// The kinds of button.
#[derive(Clone, Copy, PartialEq, Eq, Structural, Debug)]
pub enum ButtonKind {
    Primary,
    Default,
    Plain,
    Text,
    Danger,
    Icon,
}

/// What a button is painted with: its ground, its label and its outline.
#[derive(Clone, Copy, PartialEq, Eq, Structural, Debug)]
pub struct ButtonLook {
    pub fill: Option<Paint>,
    pub label: Paint,
    pub outline: Option<Role>,
}

/// The ground of a button, none where it is transparent.
pub open spec fn button_fill(kind: ButtonKind, hovered: bool) -> Option<Paint> {
    match kind {
        ButtonKind::Primary => Some(
            if hovered {
                Paint::Lighter(Role::Accent)
            } else {
                Paint::Theme(Role::Accent)
            },
        ),
        ButtonKind::Default | ButtonKind::Plain => Some(
            if hovered {
                Paint::Theme(Role::HoverFill)
            } else {
                Paint::Theme(Role::Card)
            },
        ),
        ButtonKind::Text | ButtonKind::Icon => if hovered {
            Some(Paint::Theme(Role::HoverFill))
        } else {
            None
        },
        ButtonKind::Danger => if hovered {
            Some(Paint::Theme(Role::DangerFill))
        } else {
            None
        },
    }
}

/// The label of a button.
pub open spec fn button_label(kind: ButtonKind, hovered: bool) -> Paint {
    match kind {
        ButtonKind::Primary => Paint::White,
        ButtonKind::Default => Paint::Theme(
            if hovered {
                Role::Accent
            } else {
                Role::TextPrimary
            },
        ),
        ButtonKind::Plain => Paint::Theme(Role::Accent),
        ButtonKind::Text | ButtonKind::Icon => Paint::Theme(
            if hovered {
                Role::Accent
            } else {
                Role::TextMuted
            },
        ),
        ButtonKind::Danger => Paint::Theme(Role::Danger),
    }
}

/// The outline of a button, none where it has none.
pub open spec fn button_outline(kind: ButtonKind, hovered: bool) -> Option<Role> {
    match kind {
        ButtonKind::Default => Some(
            if hovered {
                Role::Accent
            } else {
                Role::Border
            },
        ),
        ButtonKind::Plain => Some(Role::Accent),
        _ => None,
    }
}

/// How a button of this kind looks, with or without the pointer over it.
pub fn button_look(kind: ButtonKind, hovered: bool) -> (look: ButtonLook)
    ensures
        look.fill == button_fill(kind, hovered),
        look.label == button_label(kind, hovered),
        look.outline == button_outline(kind, hovered),
{
    match kind {
        ButtonKind::Primary => {
            let fill = if hovered {
                Paint::Lighter(Role::Accent)
            } else {
                Paint::Theme(Role::Accent)
            };
            ButtonLook { fill: Some(fill), label: Paint::White, outline: None }
        },
        ButtonKind::Default | ButtonKind::Plain => {
            if hovered {
                ButtonLook {
                    fill: Some(Paint::Theme(Role::HoverFill)),
                    label: Paint::Theme(Role::Accent),
                    outline: Some(Role::Accent),
                }
            } else if kind == ButtonKind::Default {
                ButtonLook {
                    fill: Some(Paint::Theme(Role::Card)),
                    label: Paint::Theme(Role::TextPrimary),
                    outline: Some(Role::Border),
                }
            } else {
                ButtonLook {
                    fill: Some(Paint::Theme(Role::Card)),
                    label: Paint::Theme(Role::Accent),
                    outline: Some(Role::Accent),
                }
            }
        },
        ButtonKind::Text | ButtonKind::Icon => {
            if hovered {
                ButtonLook {
                    fill: Some(Paint::Theme(Role::HoverFill)),
                    label: Paint::Theme(Role::Accent),
                    outline: None,
                }
            } else {
                ButtonLook { fill: None, label: Paint::Theme(Role::TextMuted), outline: None }
            }
        },
        ButtonKind::Danger => {
            if hovered {
                ButtonLook {
                    fill: Some(Paint::Theme(Role::DangerFill)),
                    label: Paint::Theme(Role::Danger),
                    outline: None,
                }
            } else {
                ButtonLook { fill: None, label: Paint::Theme(Role::Danger), outline: None }
            }
        },
    }
}

/// Under the pointer every button has a ground, and no two states of one look alike.
pub proof fn pointer_shows_on_every_button(kind: ButtonKind)
    ensures
        button_fill(kind, true) is Some,
        button_fill(kind, true) != button_fill(kind, false),
{
}

/// The kind of a button that stands for one of several choices.
pub open spec fn kind_of_choice(active: bool) -> ButtonKind {
    if active {
        ButtonKind::Primary
    } else {
        ButtonKind::Default
    }
}

/// The kind of a button that stands for one of several choices.
pub fn choice_kind(active: bool) -> (kind: ButtonKind)
    ensures
        kind == if active {
            ButtonKind::Primary
        } else {
            ButtonKind::Default
        },
        kind == kind_of_choice(active),
{
    if active {
        ButtonKind::Primary
    } else {
        ButtonKind::Default
    }
}

/// How a check box looks: its ground, its outline, and whether it has a tick.
#[derive(Clone, Copy, PartialEq, Eq, Structural, Debug)]
pub struct CheckboxLook {
    pub fill: Role,
    pub outline: Option<Role>,
    pub tick: bool,
}

/// How a check box looks.
pub open spec fn checkbox_of(checked: bool, hovered: bool) -> CheckboxLook {
    if checked {
        CheckboxLook { fill: Role::Accent, outline: None, tick: true }
    } else {
        CheckboxLook {
            fill: Role::Card,
            outline: Some(
                if hovered {
                    Role::Accent
                } else {
                    Role::Border
                },
            ),
            tick: false,
        }
    }
}

/// How a check box looks.
pub fn checkbox_look(checked: bool, hovered: bool) -> (look: CheckboxLook)
    ensures
        look == checkbox_of(checked, hovered),
{
    if checked {
        CheckboxLook { fill: Role::Accent, outline: None, tick: true }
    } else {
        let outline = if hovered {
            Role::Accent
        } else {
            Role::Border
        };
        CheckboxLook { fill: Role::Card, outline: Some(outline), tick: false }
    }
}

/// How the floating button looks: its ground, its label, its outline and how
/// strong the black of its shadow is.
#[derive(Clone, Copy, PartialEq, Eq, Structural, Debug)]
pub struct FloatingLook {
    pub fill: Paint,
    pub label: Role,
    pub outline: Role,
    pub shadow: u8,
}

/// How the floating button looks in a dark or a light theme.
pub open spec fn floating_of(dark: bool, hovered: bool) -> FloatingLook {
    FloatingLook {
        fill: if hovered {
            Paint::Lighter(Role::Card)
        } else {
            Paint::Theme(Role::Card)
        },
        label: if hovered {
            Role::Danger
        } else {
            Role::TextSecondary
        },
        outline: if hovered {
            Role::Danger
        } else {
            Role::Border
        },
        shadow: if dark {
            80
        } else {
            36
        },
    }
}

/// How the floating button looks in a dark or a light theme.
pub fn floating_look(dark: bool, hovered: bool) -> (look: FloatingLook)
    ensures
        look == floating_of(dark, hovered),
{
    let shadow: u8 = if dark { 80 } else { 36 };
    if hovered {
        FloatingLook {
            fill: Paint::Lighter(Role::Card),
            label: Role::Danger,
            outline: Role::Danger,
            shadow,
        }
    } else {
        FloatingLook {
            fill: Paint::Theme(Role::Card),
            label: Role::TextSecondary,
            outline: Role::Border,
            shadow,
        }
    }
}

// ---------------------------------------------------------------------------
// What holds of buttons and boxes

/// The main button is white on the accent; the plain and the default one have
/// an outline, which brightens under the pointer; a button for something
/// dangerous is red; the others are quiet until the pointer is over them.
pub proof fn kinds_of_buttons_differ(kind: ButtonKind, hovered: bool)
    ensures
        button_label(kind, hovered) == Paint::White <==> kind == ButtonKind::Primary,
        button_outline(kind, hovered) is Some <==> kind == ButtonKind::Default || kind
            == ButtonKind::Plain,
        button_fill(kind, false) is None <==> kind == ButtonKind::Text || kind == ButtonKind::Icon
            || kind == ButtonKind::Danger,
        button_fill(ButtonKind::Primary, false) == Some(Paint::Theme(Role::Accent)),
        button_fill(ButtonKind::Primary, true) == Some(Paint::Lighter(Role::Accent)),
        button_fill(ButtonKind::Danger, true) == Some(Paint::Theme(Role::DangerFill)),
        kind != ButtonKind::Primary && kind != ButtonKind::Danger ==> button_fill(kind, true)
            == Some(Paint::Theme(Role::HoverFill)),
        kind == ButtonKind::Default || kind == ButtonKind::Plain ==> button_fill(kind, false)
            == Some(Paint::Theme(Role::Card)) && button_outline(kind, true) == Some(Role::Accent),
        button_outline(ButtonKind::Default, false) == Some(Role::Border),
        button_outline(ButtonKind::Plain, false) == Some(Role::Accent),
        button_label(ButtonKind::Danger, hovered) == Paint::Theme(Role::Danger),
        kind != ButtonKind::Primary && kind != ButtonKind::Danger ==> button_label(kind, true)
            == Paint::Theme(Role::Accent),
        button_label(ButtonKind::Default, false) == Paint::Theme(Role::TextPrimary),
        button_label(ButtonKind::Plain, false) == Paint::Theme(Role::Accent),
        kind == ButtonKind::Text || kind == ButtonKind::Icon ==> button_label(kind, false)
            == Paint::Theme(Role::TextMuted),
{
}

/// A box that is checked has a tick on the accent, one that is not is empty and
/// outlined; the choice that holds is the main button.
pub proof fn what_is_on_stands_out(on: bool, hovered: bool)
    ensures
        checkbox_of(on, hovered).tick <==> on,
        checkbox_of(on, hovered).fill == Role::Accent <==> on,
        checkbox_of(on, hovered).outline is Some <==> !on,
        !on ==> checkbox_of(on, hovered).fill == Role::Card,
        checkbox_of(false, true).outline == Some(Role::Accent),
        checkbox_of(false, false).outline == Some(Role::Border),
        kind_of_choice(on) == ButtonKind::Primary <==> on,
        kind_of_choice(on) == ButtonKind::Default <==> !on,
{
}

/// The floating button turns red under the pointer and casts a darker shadow in
/// a dark theme.
pub proof fn the_floating_button_warns(dark: bool, hovered: bool)
    ensures
        floating_of(dark, hovered).label == Role::Danger <==> hovered,
        floating_of(dark, hovered).outline == Role::Danger <==> hovered,
        !hovered ==> floating_of(dark, hovered).label == Role::TextSecondary,
        !hovered ==> floating_of(dark, hovered).outline == Role::Border,
        floating_of(dark, true).fill == Paint::Lighter(Role::Card),
        floating_of(dark, false).fill == Paint::Theme(Role::Card),
        floating_of(true, hovered).shadow == 80,
        floating_of(false, hovered).shadow == 36,
{
}

} // verus!
