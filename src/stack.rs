//! The choices made when the full stack starts.
use vstd::prelude::*;

verus! {

/// The TUI to run: the TypeScript one when it is installed, else the one built
/// into acomm.
pub fn tui_command(acomm_tui_available: bool) -> (r: &'static str)
    ensures
        r@ == (if acomm_tui_available {
            "acomm-tui"@
        } else {
            "acomm"@
        }),
{
    if acomm_tui_available {
        "acomm-tui"
    } else {
        "acomm"
    }
}

/// Where memory is kept, as the start banner names it: the value of `AMEM_ROOT`
/// when it is set and not empty, else the default location.
pub fn memory_root_label(amem_root: Option<&str>) -> (r: String)
    ensures
        r@ == (match amem_root {
            Some(v) => if v@.len() > 0 {
                v@ + " (AMEM_ROOT)"@
            } else {
                "~/.amem (default)"@
            },
            None => "~/.amem (default)"@,
        }),
{
    match amem_root {
        Some(v) => {
            if v.unicode_len() > 0 {
                let mut label = v.to_owned();
                label.append(" (AMEM_ROOT)");
                label
            } else {
                "~/.amem (default)".to_owned()
            }
        },
        None => "~/.amem (default)".to_owned(),
    }
}

} // verus!
