//! Which fonts are looked for, and where they go among those that are there.

use vstd::prelude::*;

use crate::launch::Desktop;
use crate::text;

verus! {

/// The name under which the font for Chinese text goes.
pub const CJK: &'static str = "cjk";

/// The name under which the font for symbols goes.
pub const SYMBOLS: &'static str = "symbols";

/// The characters of each of several texts.
pub open spec fn paths_view(paths: Seq<&'static str>) -> Seq<Seq<char>> {
    paths.map_values(|p: &'static str| p@)
}

/// The fonts for Chinese text on each desktop, the best first.
pub open spec fn cjk_fonts(desktop: Desktop) -> Seq<Seq<char>> {
    match desktop {
        Desktop::Windows => seq![
            r"C:\Windows\Fonts\msyh.ttc"@,
            r"C:\Windows\Fonts\msyh.ttf"@,
            r"C:\Windows\Fonts\simhei.ttf"@,
            r"C:\Windows\Fonts\simsun.ttc"@,
        ],
        Desktop::Macos => seq![
            "/System/Library/Fonts/PingFang.ttc"@,
            "/System/Library/Fonts/Hiragino Sans GB.ttc"@,
            "/System/Library/Fonts/STHeiti Light.ttc"@,
        ],
        _ => seq![
            "/usr/share/fonts/opentype/noto/NotoSansCJK-Regular.ttc"@,
            "/usr/share/fonts/noto-cjk/NotoSansCJK-Regular.ttc"@,
            "/usr/share/fonts/truetype/wqy/wqy-microhei.ttc"@,
            "/usr/share/fonts/truetype/wqy/wqy-zenhei.ttc"@,
        ],
    }
}

/// The fonts for symbols on each desktop, the best first.
pub open spec fn symbol_fonts(desktop: Desktop) -> Seq<Seq<char>> {
    match desktop {
        Desktop::Windows => seq![r"C:\Windows\Fonts\seguisym.ttf"@],
        Desktop::Macos => seq!["/System/Library/Fonts/Apple Symbols.ttf"@],
        _ => seq![
            "/usr/share/fonts/truetype/noto/NotoSansSymbols2-Regular.ttf"@,
            "/usr/share/fonts/noto/NotoSansSymbols-Regular.ttf"@,
        ],
    }
}

/// The fonts for Chinese text to look for, the best first.
pub fn cjk_font_candidates(desktop: Desktop) -> (paths: Vec<&'static str>)
    ensures
        paths_view(paths@) == cjk_fonts(desktop),
{
    let mut paths: Vec<&'static str> = Vec::new();
    match desktop {
        Desktop::Windows => {
            paths.push(r"C:\Windows\Fonts\msyh.ttc");
            paths.push(r"C:\Windows\Fonts\msyh.ttf");
            paths.push(r"C:\Windows\Fonts\simhei.ttf");
            paths.push(r"C:\Windows\Fonts\simsun.ttc");
        },
        Desktop::Macos => {
            paths.push("/System/Library/Fonts/PingFang.ttc");
            paths.push("/System/Library/Fonts/Hiragino Sans GB.ttc");
            paths.push("/System/Library/Fonts/STHeiti Light.ttc");
        },
        _ => {
            paths.push("/usr/share/fonts/opentype/noto/NotoSansCJK-Regular.ttc");
            paths.push("/usr/share/fonts/noto-cjk/NotoSansCJK-Regular.ttc");
            paths.push("/usr/share/fonts/truetype/wqy/wqy-microhei.ttc");
            paths.push("/usr/share/fonts/truetype/wqy/wqy-zenhei.ttc");
        },
    }
    proof {
        assert(paths_view(paths@) =~= cjk_fonts(desktop));
    }
    paths
}

/// The fonts for symbols to look for, the best first.
pub fn symbol_font_candidates(desktop: Desktop) -> (paths: Vec<&'static str>)
    ensures
        paths_view(paths@) == symbol_fonts(desktop),
{
    let mut paths: Vec<&'static str> = Vec::new();
    match desktop {
        Desktop::Windows => {
            paths.push(r"C:\Windows\Fonts\seguisym.ttf");
        },
        Desktop::Macos => {
            paths.push("/System/Library/Fonts/Apple Symbols.ttf");
        },
        _ => {
            paths.push("/usr/share/fonts/truetype/noto/NotoSansSymbols2-Regular.ttf");
            paths.push("/usr/share/fonts/noto/NotoSansSymbols-Regular.ttf");
        },
    }
    proof {
        assert(paths_view(paths@) =~= symbol_fonts(desktop));
    }
    paths
}

/// The fonts of a family in the order in which they are asked for a character.
/// The Chinese font is the first of the proportional ones and the last of the
/// others; the font for symbols stands right behind it or, without it, first.
pub open spec fn family_with(fonts: Seq<Seq<char>>, proportional: bool, cjk: bool, symbols: bool) -> Seq<
    Seq<char>,
> {
    let with_cjk = if !cjk {
        fonts
    } else if proportional {
        seq![CJK@] + fonts
    } else {
        fonts.push(CJK@)
    };
    if symbols {
        with_cjk.insert(
            if cjk {
                1
            } else {
                0
            },
            SYMBOLS@,
        )
    } else {
        with_cjk
    }
}

/// Puts the fonts that were found among those of a family.
pub fn extend_family(fonts: &mut Vec<String>, proportional: bool, cjk: bool, symbols: bool)
    ensures
        text::texts_view(final(fonts)@) == family_with(
            text::texts_view(old(fonts)@),
            proportional,
            cjk,
            symbols,
        ),
{
    let ghost before = text::texts_view(fonts@);
    if cjk {
        if proportional {
            fonts.insert(0, text::copy_text(CJK));
            proof {
                assert(text::texts_view(fonts@) =~= seq![CJK@] + before);
            }
        } else {
            fonts.push(text::copy_text(CJK));
            proof {
                assert(text::texts_view(fonts@) =~= before.push(CJK@));
            }
        }
    }
    if symbols {
        let ghost with_cjk = text::texts_view(fonts@);
        let at: usize = if cjk { 1 } else { 0 };
        fonts.insert(at, text::copy_text(SYMBOLS));
        proof {
            assert(text::texts_view(fonts@) =~= with_cjk.insert(at as int, SYMBOLS@));
        }
    }
}

/// The fonts that were there stay in their order; the Chinese one is asked first
/// for proportional text and last for the other, and the one for symbols is
/// asked right behind the first. A font that was not found is not asked.
pub proof fn fonts_are_asked_in_order(fonts: Seq<Seq<char>>, proportional: bool)
    ensures
        family_with(fonts, proportional, false, false) == fonts,
        family_with(fonts, true, true, false) == seq!["cjk"@] + fonts,
        family_with(fonts, false, true, false) == fonts + seq!["cjk"@],
        family_with(fonts, true, true, true) == seq!["cjk"@, "symbols"@] + fonts,
        family_with(fonts, proportional, false, true) == seq!["symbols"@] + fonts,
        fonts.len() > 0 ==> family_with(fonts, false, true, true) == seq![fonts[0], "symbols"@]
            + fonts.skip(1) + seq!["cjk"@],
        fonts.len() == 0 ==> family_with(fonts, false, true, true) == seq!["cjk"@, "symbols"@],
{
    assert(family_with(fonts, false, true, false) =~= fonts + seq!["cjk"@]);
    assert(family_with(fonts, true, true, true) =~= seq!["cjk"@, "symbols"@] + fonts);
    assert(family_with(fonts, proportional, false, true) =~= seq!["symbols"@] + fonts);
    if fonts.len() > 0 {
        assert(family_with(fonts, false, true, true) =~= seq![fonts[0], "symbols"@] + fonts.skip(1)
            + seq!["cjk"@]);
    } else {
        assert(family_with(fonts, false, true, true) =~= seq!["cjk"@, "symbols"@]);
    }
}

} // verus!
