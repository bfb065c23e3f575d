//! The themes: which colour stands for what.

use vstd::prelude::*;

verus! {

/// How many themes there are.
pub const THEME_COUNT: usize = 3;

/// How many colours a theme has.
pub const ROLE_COUNT: usize = 20;

/// The colours of the dark theme, in the order of the roles, as `0xRRGGBB`.
pub const DARK: [u32; 20] = [
    0x141414, 0x1d1d1d, 0x1d1d1d, 0x409eff, 0x1d2b3a, 0x1d1d1d, 0x141414, 0xe5eaf3, 0xe5eaf3,
    0xcfd3dc, 0xa3a6ad, 0x6c6e72, 0x6c6e72, 0x409eff, 0xf89898, 0xf56c6c, 0x414243, 0x4c4d4f,
    0x263447, 0x3a2426,
];

/// The colours of the light theme, in the order of the roles, as `0xRRGGBB`.
pub const LIGHT: [u32; 20] = [
    0xf5f7fa, 0xffffff, 0xffffff, 0x409eff, 0xecf5ff, 0xffffff, 0xf5f7fa, 0x303133, 0x303133,
    0x606266, 0x909399, 0xc0c4cc, 0xc0c4cc, 0x409eff, 0xf56c6c, 0xf56c6c, 0xe4e7ed, 0xdcdfe6,
    0xecf5ff, 0xfef0f0,
];

/// The colours of the dark green theme, in the order of the roles, as `0xRRGGBB`.
pub const GREEN: [u32; 20] = [
    0x101614, 0x141b18, 0x182420, 0x2aae76, 0x1e3329, 0x182420, 0x121916, 0xe0eae4, 0xd7e3db,
    0xb7c8bd, 0x7e9186, 0x5a6a60, 0x5a6a60, 0x2fbf8f, 0xf1938c, 0xef6c6c, 0x2a3830, 0x3a4a41,
    0x1e3329, 0x33201d,
];

/// What a colour is used for.
#[derive(Clone, Copy, PartialEq, Eq, Structural, Debug)]
pub enum Role {
    Bg,
    Titlebar,
    Card,
    CellSelected,
    CellToday,
    CellInMonth,
    CellOutMonth,
    TextTitle,
    TextPrimary,
    TextSecondary,
    TextMuted,
    TextDone,
    TextDim,
    Accent,
    Weekend,
    Danger,
    Separator,
    Border,
    HoverFill,
    DangerFill,
}

/// The place of a role in the list of colours of a theme.
pub open spec fn role_index(role: Role) -> int {
    match role {
        Role::Bg => 0,
        Role::Titlebar => 1,
        Role::Card => 2,
        Role::CellSelected => 3,
        Role::CellToday => 4,
        Role::CellInMonth => 5,
        Role::CellOutMonth => 6,
        Role::TextTitle => 7,
        Role::TextPrimary => 8,
        Role::TextSecondary => 9,
        Role::TextMuted => 10,
        Role::TextDone => 11,
        Role::TextDim => 12,
        Role::Accent => 13,
        Role::Weekend => 14,
        Role::Danger => 15,
        Role::Separator => 16,
        Role::Border => 17,
        Role::HoverFill => 18,
        Role::DangerFill => 19,
    }
}

fn index_of(role: Role) -> (index: usize)
    ensures
        index == role_index(role),
        index < ROLE_COUNT,
{
    match role {
        Role::Bg => 0,
        Role::Titlebar => 1,
        Role::Card => 2,
        Role::CellSelected => 3,
        Role::CellToday => 4,
        Role::CellInMonth => 5,
        Role::CellOutMonth => 6,
        Role::TextTitle => 7,
        Role::TextPrimary => 8,
        Role::TextSecondary => 9,
        Role::TextMuted => 10,
        Role::TextDone => 11,
        Role::TextDim => 12,
        Role::Accent => 13,
        Role::Weekend => 14,
        Role::Danger => 15,
        Role::Separator => 16,
        Role::Border => 17,
        Role::HoverFill => 18,
        Role::DangerFill => 19,
    }
}

/// A colour by its red, green and blue parts.
#[derive(Clone, Copy, PartialEq, Eq, Structural, Debug)]
pub struct Color {
    pub r: u8,
    pub g: u8,
    pub b: u8,
}

/// White.
pub open spec fn white() -> Color {
    Color { r: 255, g: 255, b: 255 }
}

/// The colour that `0xRRGGBB` stands for.
pub open spec fn color_of(rgb: int) -> Color {
    Color { r: (rgb / 0x10000 % 0x100) as u8, g: (rgb / 0x100 % 0x100) as u8, b: (rgb % 0x100) as u8 }
}

/// The colour of a role in the theme with this index.
pub open spec fn theme_color(theme: int, role: Role) -> Color {
    if theme == 0 {
        color_of(DARK@[role_index(role)] as int)
    } else if theme == 1 {
        color_of(LIGHT@[role_index(role)] as int)
    } else {
        color_of(GREEN@[role_index(role)] as int)
    }
}

/// The colour of `role` in the theme with this index.
pub fn role_color(theme: usize, role: Role) -> (color: Color)
    requires
        theme < THEME_COUNT,
    ensures
        color == theme_color(theme as int, role),
{
    let index: usize = index_of(role);
    let rgb: u32 = if theme == 0 {
        DARK[index]
    } else if theme == 1 {
        LIGHT[index]
    } else {
        GREEN[index]
    };
    Color { r: (rgb / 0x10000 % 0x100) as u8, g: (rgb / 0x100 % 0x100) as u8, b: (rgb % 0x100) as u8 }
}

/// The name of the theme.
pub open spec fn name_of(theme: int) -> Seq<char> {
    if theme == 0 {
        "深色"@
    } else if theme == 1 {
        "浅色"@
    } else {
        "墨绿"@
    }
}

/// The sign of the theme.
pub open spec fn icon_of(theme: int) -> Seq<char> {
    if theme == 0 {
        "🌙"@
    } else if theme == 1 {
        "☀"@
    } else {
        "🍃"@
    }
}

/// Whether the theme is a dark one.
pub open spec fn dark_of(theme: int) -> bool {
    theme != 1
}

/// The name of the theme.
pub fn theme_name(theme: usize) -> (name: &'static str)
    requires
        theme < THEME_COUNT,
    ensures
        name@ == name_of(theme as int),
{
    if theme == 0 {
        "深色"
    } else if theme == 1 {
        "浅色"
    } else {
        "墨绿"
    }
}

/// The sign of the theme.
pub fn theme_icon(theme: usize) -> (icon: &'static str)
    requires
        theme < THEME_COUNT,
    ensures
        icon@ == icon_of(theme as int),
{
    if theme == 0 {
        "🌙"
    } else if theme == 1 {
        "☀"
    } else {
        "🍃"
    }
}

/// Whether the theme is a dark one.
pub fn is_dark(theme: usize) -> (dark: bool)
    requires
        theme < THEME_COUNT,
    ensures
        dark == dark_of(theme as int),
{
    theme != 1
}

/// The index of a theme that exists: the last one where `index` is too high.
pub open spec fn theme_within(index: int) -> int {
    if index < THEME_COUNT {
        index
    } else {
        THEME_COUNT - 1
    }
}

/// The index of a theme that exists: the last one where `index` is too high.
pub fn existing_theme(index: usize) -> (theme: usize)
    ensures
        theme == theme_within(index as int),
        theme < THEME_COUNT,
{
    if index < THEME_COUNT {
        index
    } else {
        THEME_COUNT - 1
    }
}

/// The theme that follows; the first one follows the last.
pub open spec fn theme_after(theme: int) -> int {
    (theme + 1) % (THEME_COUNT as int)
}

/// The theme that follows `theme`; the first one follows the last.
pub fn next_theme(theme: usize) -> (next: usize)
    requires
        theme < THEME_COUNT,
    ensures
        next == theme_after(theme as int),
        next < THEME_COUNT,
{
    (theme + 1) % THEME_COUNT
}

/// Going from theme to theme passes through all three and comes back.
pub proof fn themes_go_round(theme: int)
    requires
        0 <= theme < THEME_COUNT,
    ensures
        theme_after(theme) != theme,
        theme_after(theme_after(theme)) != theme,
        theme_after(theme_after(theme)) != theme_after(theme),
        theme_after(theme_after(theme_after(theme))) == theme,
{
}

// ---------------------------------------------------------------------------
// Lighter colours

/// A part of a colour moved twelve hundredths of the way to the brightest, rounded down.
pub open spec fn lighter_part(part: int) -> int {
    part + (255 - part) * 12 / 100
}

/// A somewhat lighter colour.
pub open spec fn lighter(color: Color) -> Color {
    Color {
        r: lighter_part(color.r as int) as u8,
        g: lighter_part(color.g as int) as u8,
        b: lighter_part(color.b as int) as u8,
    }
}

fn lighten_part(part: u8) -> (result: u8)
    ensures
        result == lighter_part(part as int),
{
    (part as u32 + (255 - part as u32) * 12 / 100) as u8
}

/// A somewhat lighter colour.
pub fn lighten(color: Color) -> (result: Color)
    ensures
        result == lighter(color),
{
    Color { r: lighten_part(color.r), g: lighten_part(color.g), b: lighten_part(color.b) }
}

/// Lightening darkens no part of a colour, keeps the order of parts and leaves white alone.
pub proof fn lightening_never_darkens(part: int, brighter: int)
    requires
        0 <= part <= brighter <= 255,
    ensures
        part <= lighter_part(part) <= 255,
        lighter_part(part) <= lighter_part(brighter),
        lighter(white()) == white(),
{
}

/// What something is painted with.
#[derive(Clone, Copy, PartialEq, Eq, Structural, Debug)]
pub enum Paint {
    Theme(Role),
    Lighter(Role),
    White,
}

/// The colour of a paint in the theme with this index.
pub open spec fn paint_of(theme: int, paint: Paint) -> Color {
    match paint {
        Paint::Theme(role) => theme_color(theme, role),
        Paint::Lighter(role) => lighter(theme_color(theme, role)),
        Paint::White => white(),
    }
}

/// The colour of `paint` in the theme with this index.
pub fn paint_color(theme: usize, paint: Paint) -> (color: Color)
    requires
        theme < THEME_COUNT,
    ensures
        color == paint_of(theme as int, paint),
{
    match paint {
        Paint::Theme(role) => role_color(theme, role),
        Paint::Lighter(role) => lighten(role_color(theme, role)),
        Paint::White => Color { r: 255, g: 255, b: 255 },
    }
}

// ---------------------------------------------------------------------------
// What holds of the themes

/// How bright a colour is: the sum of its parts.
pub open spec fn brightness(color: Color) -> int {
    color.r + color.g + color.b
}

/// In a dark theme the texts are brighter than what they stand on, in a light
/// one they are darker; what is less important is nearer to the ground.
pub proof fn texts_stand_out(theme: int)
    requires
        0 <= theme < 3,
    ensures
        ({
            let ground = brightness(theme_color(theme, Role::Card));
            let main = brightness(theme_color(theme, Role::TextPrimary));
            let second = brightness(theme_color(theme, Role::TextSecondary));
            let muted = brightness(theme_color(theme, Role::TextMuted));
            let done = brightness(theme_color(theme, Role::TextDone));
            &&& theme != 1 ==> ground < done < muted < second < main
            &&& theme == 1 ==> ground > done > muted > second > main
            &&& theme_color(theme, Role::TextDim) == theme_color(theme, Role::TextDone)
            &&& dark_of(theme) <==> ground < 384
        }),
{
}

/// What is dangerous is red, in the sign as in the ground.
pub proof fn danger_is_red(theme: int)
    requires
        0 <= theme < 3,
    ensures
        ({
            let sign = theme_color(theme, Role::Danger);
            let ground = theme_color(theme, Role::DangerFill);
            let weekend = theme_color(theme, Role::Weekend);
            &&& sign.r > sign.g && sign.r > sign.b
            &&& ground.r > ground.g && ground.r > ground.b
            &&& weekend.r > weekend.g && weekend.r > weekend.b
        }),
{
}

/// A colour is read from its six digits: red, green, blue, two digits each.
pub proof fn colors_are_read_from_their_digits(r: int, g: int, b: int)
    requires
        0 <= r < 256,
        0 <= g < 256,
        0 <= b < 256,
    ensures
        color_of(r * 0x10000 + g * 0x100 + b) == (Color { r: r as u8, g: g as u8, b: b as u8 }),
{
}

/// Every role has a colour of its own in the list of a theme.
pub proof fn roles_have_their_own_places(a: Role, b: Role)
    ensures
        0 <= role_index(a) < 20,
        role_index(a) == role_index(b) ==> a == b,
{
}

/// The themes are the dark one, the light one and the dark green one; only the
/// light one is not dark. The next one follows in this order.
pub proof fn themes_have_their_names(theme: int)
    requires
        0 <= theme < 3,
    ensures
        name_of(theme) == seq!["深色"@, "浅色"@, "墨绿"@][theme],
        icon_of(theme) == seq!["🌙"@, "☀"@, "🍃"@][theme],
        dark_of(theme) <==> theme != 1,
        theme < 2 ==> theme_after(theme) == theme + 1,
        theme == 2 ==> theme_after(theme) == 0,
        theme_within(theme) == theme,
        theme_within(theme + 3) == 2,
{
}

/// Lightening goes twelve hundredths of the way to white, rounded down, in each
/// part alike.
pub proof fn lightening_goes_towards_white(color: Color)
    ensures
        ({
            let after = lighter(color);
            &&& 0 <= (255 - color.r) * 12 - 100 * (after.r - color.r) < 100
            &&& 0 <= (255 - color.g) * 12 - 100 * (after.g - color.g) < 100
            &&& 0 <= (255 - color.b) * 12 - 100 * (after.b - color.b) < 100
        }),
{
}

/// A paint is the colour of its role, the lighter one, or white.
pub proof fn paints_are_colors_of_roles(theme: int, role: Role)
    ensures
        paint_of(theme, Paint::Theme(role)) == theme_color(theme, role),
        paint_of(theme, Paint::Lighter(role)) == lighter(theme_color(theme, role)),
        paint_of(theme, Paint::White) == (Color { r: 255, g: 255, b: 255 }),
{
}

} // verus!
