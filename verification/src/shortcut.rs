//! Generation of the Windows shortcut-creation script.

use vstd::prelude::*;
use crate::text::{chars_of, esc_single_quotes, escape_single_quotes, push_all, string_of};

verus! {

/// `input` with every single quote doubled, safe inside a PowerShell
/// single-quoted string.
pub fn escape_single_quoted_ps(input: &str) -> (r: String)
    ensures
        r@ == esc_single_quotes(input@),
{
    let cs = chars_of(input);
    string_of(&escape_single_quotes(&cs))
}

/// The exact text of the shortcut script for the given paths.
pub open spec fn spec_shortcut_script(
    target: Seq<char>,
    link: Seq<char>,
    icon: Seq<char>,
) -> Seq<char> {
    "$TargetPath = '"@ + esc_single_quotes(target) + "'\n$LinkPath = '"@ + esc_single_quotes(
        link,
    ) + "'\n$IconPath = '"@ + esc_single_quotes(icon)
        + "'\n$WshShell = New-Object -ComObject WScript.Shell\n$Shortcut = $WshShell.CreateShortcut($LinkPath)\n$Shortcut.TargetPath = $TargetPath\n$Shortcut.WorkingDirectory = Split-Path -Path $TargetPath -Parent\n$Shortcut.IconLocation = $IconPath\n$Shortcut.Save()\n"@
}

/// Renders the PowerShell script that creates a desktop shortcut for the
/// given target, link and icon paths. Deterministic in its inputs, with
/// single quotes escaped for PowerShell.
pub fn build_shortcut_ps_script(target_path: &str, link_path: &str, icon_path: &str) -> (r:
    String)
    ensures
        r@ == spec_shortcut_script(target_path@, link_path@, icon_path@),
{
    let mut out = chars_of("$TargetPath = '");
    let t = escape_single_quotes(&chars_of(target_path));
    push_all(&mut out, &t);
    let p1 = chars_of("'\n$LinkPath = '");
    push_all(&mut out, &p1);
    let l = escape_single_quotes(&chars_of(link_path));
    push_all(&mut out, &l);
    let p2 = chars_of("'\n$IconPath = '");
    push_all(&mut out, &p2);
    let ic = escape_single_quotes(&chars_of(icon_path));
    push_all(&mut out, &ic);
    let p3 = chars_of(
        "'\n$WshShell = New-Object -ComObject WScript.Shell\n$Shortcut = $WshShell.CreateShortcut($LinkPath)\n$Shortcut.TargetPath = $TargetPath\n$Shortcut.WorkingDirectory = Split-Path -Path $TargetPath -Parent\n$Shortcut.IconLocation = $IconPath\n$Shortcut.Save()\n",
    );
    push_all(&mut out, &p3);
    proof {
        assert(out@ =~= spec_shortcut_script(target_path@, link_path@, icon_path@));
    }
    string_of(&out)
}

} // verus!
