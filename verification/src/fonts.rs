use vstd::prelude::*;

use crate::language::LanguageId;

verus! {

/// The bundled Latin interface face.
pub open spec fn inter_face() -> Seq<char> {
    "Inter Variable"@
}

/// The bundled Simplified Chinese interface face.
pub open spec fn noto_sans_sc_face() -> Seq<char> {
    "Noto Sans SC"@
}

/// The bundled monospaced face.
pub open spec fn jetbrains_mono_face() -> Seq<char> {
    "JetBrains Mono"@
}

/// The Windows interface face.
pub open spec fn segoe_ui_face() -> Seq<char> {
    "Segoe UI"@
}

/// The Windows Chinese interface face.
pub open spec fn microsoft_yahei_ui_face() -> Seq<char> {
    "Microsoft YaHei UI"@
}

/// The face used when no preferred face is installed.
pub open spec fn sans_serif_fallback_face() -> Seq<char> {
    "Arial"@
}

/// The face for interface text in `language`: the bundled face for the
/// language once the bundled fonts are registered, else Segoe UI.
pub fn ui_face(language: LanguageId, fonts_registered: bool) -> (face: &'static str)
    ensures
        face@ == if !fonts_registered {
            segoe_ui_face()
        } else if language == LanguageId::SimplifiedChinese {
            noto_sans_sc_face()
        } else {
            inter_face()
        },
{
    if !fonts_registered {
        return "Segoe UI";
    }
    match language {
        LanguageId::SimplifiedChinese => "Noto Sans SC",
        _ => "Inter Variable",
    }
}

/// The face for taskbar text: the bundled Latin face once registered, else
/// Segoe UI.
pub fn taskbar_face(fonts_registered: bool) -> (face: &'static str)
    ensures
        face@ == if fonts_registered {
            inter_face()
        } else {
            segoe_ui_face()
        },
{
    if fonts_registered {
        "Inter Variable"
    } else {
        "Segoe UI"
    }
}

/// The face of the taskbar widget: the first installed of Segoe UI and
/// Microsoft YaHei UI, else Arial.
pub fn taskbar_widget_face(segoe_ui_installed: bool, yahei_ui_installed: bool) -> (face: &'static str)
    ensures
        face@ == if segoe_ui_installed {
            segoe_ui_face()
        } else if yahei_ui_installed {
            microsoft_yahei_ui_face()
        } else {
            sans_serif_fallback_face()
        },
{
    if segoe_ui_installed {
        "Segoe UI"
    } else if yahei_ui_installed {
        "Microsoft YaHei UI"
    } else {
        "Arial"
    }
}

/// The monospaced face: the bundled one once registered, else Consolas.
pub fn mono_face(fonts_registered: bool) -> (face: &'static str)
    ensures
        face@ == if fonts_registered {
            jetbrains_mono_face()
        } else {
            "Consolas"@
        },
{
    if fonts_registered {
        "JetBrains Mono"
    } else {
        "Consolas"
    }
}

} // verus!
