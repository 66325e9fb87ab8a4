//! Which shells there are: names for them, the list that the new-tab dropdown offers, the ones
//! opened at startup, and the one a new tab runs.

use vstd::prelude::*;

use crate::text;

verus! {

/// One entry in the new-tab dropdown.
pub struct ShellChoice {
    pub label: String,
    pub cmd: String,
}

pub ghost struct ChoiceView {
    pub label: Seq<char>,
    pub cmd: Seq<char>,
}

impl View for ShellChoice {
    type V = ChoiceView;

    open spec fn view(&self) -> ChoiceView {
        ChoiceView { label: self.label@, cmd: self.cmd@ }
    }
}

/// The entries of a list of choices.
pub open spec fn views(v: Seq<ShellChoice>) -> Seq<ChoiceView> {
    v.map_values(|c: ShellChoice| c@)
}

/// `s` with its ASCII capitals lowered.
pub open spec fn ascii_lowered(s: Seq<char>) -> Seq<char> {
    s.map_values(|c: char| text::ascii_lower(c))
}

/// A clean tab name for a shell whose command line, in lower case, is `lower`.
pub open spec fn label_for(lower: Seq<char>) -> Seq<char> {
    if text::occurs(lower, "powershell"@) || text::occurs(lower, "pwsh"@) {
        "PowerShell"@
    } else if text::occurs(lower, "cmd"@) {
        "Command Prompt"@
    } else {
        "Shell"@
    }
}

/// The standard shells that are there, in the order they are offered.
pub open spec fn standard(powershell: bool, cmd: bool, pwsh: bool) -> Seq<ChoiceView> {
    (if powershell {
        seq![ChoiceView { label: "PowerShell"@, cmd: "powershell.exe"@ }]
    } else {
        seq![]
    }) + (if cmd {
        seq![ChoiceView { label: "Command Prompt"@, cmd: "cmd.exe"@ }]
    } else {
        seq![]
    }) + (if pwsh {
        seq![ChoiceView { label: "PowerShell 7"@, cmd: "pwsh.exe"@ }]
    } else {
        seq![]
    })
}

/// The configured shell is none of the standard ones.
pub open spec fn is_custom(cfg: Seq<char>, lower: Seq<char>) -> bool {
    &&& cfg.len() > 0
    &&& lower != "powershell.exe"@
    &&& lower != "cmd.exe"@
    &&& lower != "pwsh.exe"@
}

/// The shells to offer: a custom configured one first, then the standard ones that are there, and
/// the command prompt if that comes to nothing. `lower` is `cfg` in lower case.
pub open spec fn choices(
    cfg: Seq<char>,
    lower: Seq<char>,
    powershell: bool,
    cmd: bool,
    pwsh: bool,
) -> Seq<ChoiceView> {
    let there = standard(powershell, cmd, pwsh);
    if is_custom(cfg, lower) {
        seq![ChoiceView { label: label_for(lower), cmd: cfg }] + there
    } else if there.len() > 0 {
        there
    } else {
        seq![ChoiceView { label: "Command Prompt"@, cmd: "cmd.exe"@ }]
    }
}

/// The shell a new tab runs: the configured one, unless that is a PowerShell that is not there.
/// `lower` is `cfg` in lower case.
pub open spec fn new_tab_command(cfg: Seq<char>, lower: Seq<char>, powershell: bool) -> Seq<char> {
    if text::occurs(lower, "powershell"@) && !powershell {
        "cmd.exe"@
    } else {
        cfg
    }
}

/// A clean tab name for a command line given in lower case.
pub fn lowered_label(lower: &str) -> (label: String)
    ensures
        label@ == label_for(lower@),
{
    if text::contains(lower, "powershell") || text::contains(lower, "pwsh") {
        "PowerShell".to_string()
    } else if text::contains(lower, "cmd") {
        "Command Prompt".to_string()
    } else {
        "Shell".to_string()
    }
}

/// A clean default tab name for a shell command line.
pub fn shell_label(shell: &str) -> (label: String)
    ensures
        label@ == label_for(text::lowercase(shell@)),
        vstd::utf8::is_ascii_chars(shell@) ==> label@ == label_for(ascii_lowered(shell@)),
{
    let lower: String = text::to_lowercase(shell);
    lowered_label(lower.as_str())
}

fn choice(label: &str, cmd: &str) -> (c: ShellChoice)
    ensures
        c@ == (ChoiceView { label: label@, cmd: cmd@ }),
{
    ShellChoice { label: label.to_string(), cmd: cmd.to_string() }
}

/// The shells to offer, given the configured shell and its lower case.
pub fn shell_choices(cfg: &str, lower: &str, powershell: bool, cmd: bool, pwsh: bool) -> (v: Vec<
    ShellChoice,
>)
    ensures
        views(v@) == choices(cfg@, lower@, powershell, cmd, pwsh),
{
    let mut v: Vec<ShellChoice> = Vec::new();
    let known: bool = text::same(lower, "powershell.exe") || text::same(lower, "cmd.exe")
        || text::same(lower, "pwsh.exe");
    if !cfg.is_empty() && !known {
        let label: String = lowered_label(lower);
        v.push(choice(label.as_str(), cfg));
    }
    if powershell {
        v.push(choice("PowerShell", "powershell.exe"));
    }
    if cmd {
        v.push(choice("Command Prompt", "cmd.exe"));
    }
    if pwsh {
        v.push(choice("PowerShell 7", "pwsh.exe"));
    }
    if v.is_empty() {
        v.push(choice("Command Prompt", "cmd.exe"));
    }
    proof {
        assert(views(v@) =~= choices(cfg@, lower@, powershell, cmd, pwsh));
    }
    v
}

/// The shells to offer in the new-tab dropdown: whichever of the standard ones are there, and the
/// configured shell, its ends trimmed, when it is a custom one.
pub fn available_shells(cfg_shell: &str, powershell: bool, cmd: bool, pwsh: bool) -> (v: Vec<
    ShellChoice,
>)
    ensures
        views(v@) == choices(
            text::trim(cfg_shell@),
            text::lowercase(text::trim(cfg_shell@)),
            powershell,
            cmd,
            pwsh,
        ),
        vstd::utf8::is_ascii_chars(text::trim(cfg_shell@)) ==> views(v@) == choices(
            text::trim(cfg_shell@),
            ascii_lowered(text::trim(cfg_shell@)),
            powershell,
            cmd,
            pwsh,
        ),
{
    let cfg: String = text::trimmed(cfg_shell);
    let lower: String = text::to_lowercase(cfg.as_str());
    shell_choices(cfg.as_str(), lower.as_str(), powershell, cmd, pwsh)
}

/// The shells to open at startup: both standard ones where PowerShell is there, else the command
/// prompt alone.
pub fn startup_shells(powershell: bool) -> (v: Vec<String>)
    ensures
        powershell ==> v@.len() == 2 && v@[0]@ == "powershell.exe"@ && v@[1]@ == "cmd.exe"@,
        !powershell ==> v@.len() == 1 && v@[0]@ == "cmd.exe"@,
{
    let mut v: Vec<String> = Vec::new();
    if powershell {
        v.push("powershell.exe".to_string());
    }
    v.push("cmd.exe".to_string());
    v
}

/// The shell a new tab runs, given the configured shell and its lower case.
pub fn shell_or_fallback(cfg: &str, lower: &str, powershell: bool) -> (cmd: String)
    ensures
        cmd@ == new_tab_command(cfg@, lower@, powershell),
{
    if text::contains(lower, "powershell") && !powershell {
        "cmd.exe".to_string()
    } else {
        cfg.to_string()
    }
}

/// The shell a new tab runs.
pub fn new_tab_shell(cfg_shell: &str, powershell: bool) -> (cmd: String)
    ensures
        cmd@ == new_tab_command(cfg_shell@, text::lowercase(cfg_shell@), powershell),
        vstd::utf8::is_ascii_chars(cfg_shell@) ==> cmd@ == new_tab_command(
            cfg_shell@,
            ascii_lowered(cfg_shell@),
            powershell,
        ),
{
    let lower: String = text::to_lowercase(cfg_shell);
    shell_or_fallback(cfg_shell, lower.as_str(), powershell)
}

/// The path of `rel` in the system directory under the Windows root.
pub fn system32_path(root: &str, rel: &str) -> (path: String)
    ensures
        path@ == root@ + "\\System32\\"@ + rel@,
{
    let mut path: String = root.to_string();
    path.append("\\System32\\");
    path.append(rel);
    path
}

/// The directory a shell starts in: the user's profile where that is a directory; none stands for
/// the directory of the program itself.
pub fn home_dir(profile: Option<String>, is_dir: bool) -> (dir: Option<String>)
    ensures
        is_dir ==> dir == profile,
        !is_dir ==> dir is None,
{
    if is_dir {
        profile
    } else {
        None
    }
}

/// There is always a shell to offer, each with a name and a command line. A custom configured
/// shell leads the list, and every standard shell that is there is on it.
pub proof fn law_always_a_shell(
    cfg: Seq<char>,
    lower: Seq<char>,
    powershell: bool,
    cmd: bool,
    pwsh: bool,
)
    ensures
        ({
            let v = choices(cfg, lower, powershell, cmd, pwsh);
            &&& v.len() > 0
            &&& forall|i: int| 0 <= i < v.len() ==> (#[trigger] v[i]).label.len() > 0
                && v[i].cmd.len() > 0
            &&& is_custom(cfg, lower) ==> v[0].cmd == cfg
            &&& powershell ==> exists|i: int|
                0 <= i < v.len() && (#[trigger] v[i]).cmd == "powershell.exe"@
            &&& cmd ==> exists|i: int| 0 <= i < v.len() && (#[trigger] v[i]).cmd == "cmd.exe"@
            &&& pwsh ==> exists|i: int| 0 <= i < v.len() && (#[trigger] v[i]).cmd == "pwsh.exe"@
        }),
{
    reveal_strlit("PowerShell");
    reveal_strlit("Command Prompt");
    reveal_strlit("PowerShell 7");
    reveal_strlit("Shell");
    reveal_strlit("powershell.exe");
    reveal_strlit("cmd.exe");
    reveal_strlit("pwsh.exe");
    let v = choices(cfg, lower, powershell, cmd, pwsh);
    let off: int = if is_custom(cfg, lower) {
        1
    } else {
        0
    };
    let at_cmd: int = if powershell {
        off + 1
    } else {
        off
    };
    let at_pwsh: int = if cmd {
        at_cmd + 1
    } else {
        at_cmd
    };
    if powershell {
        assert(v[off].cmd == "powershell.exe"@);
    }
    if cmd {
        assert(v[at_cmd].cmd == "cmd.exe"@);
    }
    if pwsh {
        assert(v[at_pwsh].cmd == "pwsh.exe"@);
    }
}

/// Nothing is offered that is neither there nor configured, but for the command prompt as the last
/// resort.
pub proof fn law_offers_what_is_there(
    cfg: Seq<char>,
    lower: Seq<char>,
    powershell: bool,
    cmd: bool,
    pwsh: bool,
    i: int,
)
    requires
        0 <= i < choices(cfg, lower, powershell, cmd, pwsh).len(),
    ensures
        ({
            let c = choices(cfg, lower, powershell, cmd, pwsh)[i].cmd;
            ||| is_custom(cfg, lower) && c == cfg
            ||| powershell && c == "powershell.exe"@
            ||| cmd && c == "cmd.exe"@
            ||| pwsh && c == "pwsh.exe"@
            ||| !is_custom(cfg, lower) && !powershell && !cmd && !pwsh && c == "cmd.exe"@
        }),
{
}

/// A PowerShell, of either name, is called so; a command prompt is; and any other shell is a shell.
pub proof fn law_labels(lower: Seq<char>, at: int)
    ensures
        text::occurs_at(lower, "powershell"@, at) || text::occurs_at(lower, "pwsh"@, at)
            ==> label_for(lower) == "PowerShell"@,
        text::occurs_at(lower, "cmd"@, at) && !text::occurs(lower, "powershell"@) && !text::occurs(
            lower,
            "pwsh"@,
        ) ==> label_for(lower) == "Command Prompt"@,
        !text::occurs(lower, "powershell"@) && !text::occurs(lower, "pwsh"@) && !text::occurs(
            lower,
            "cmd"@,
        ) ==> label_for(lower) == "Shell"@,
{
}

/// The standard shells are offered by their names, PowerShell before the command prompt before
/// PowerShell 7, each once at the most.
pub proof fn law_standard_order(powershell: bool, cmd: bool, pwsh: bool, i: int, j: int)
    requires
        0 <= i < j < standard(powershell, cmd, pwsh).len(),
    ensures
        ({
            let (a, b) = (standard(powershell, cmd, pwsh)[i], standard(powershell, cmd, pwsh)[j]);
            ||| a.cmd == "powershell.exe"@ && b.cmd == "cmd.exe"@ && a.label == "PowerShell"@
                && b.label == "Command Prompt"@
            ||| a.cmd == "powershell.exe"@ && b.cmd == "pwsh.exe"@ && a.label == "PowerShell"@
                && b.label == "PowerShell 7"@
            ||| a.cmd == "cmd.exe"@ && b.cmd == "pwsh.exe"@ && a.label == "Command Prompt"@
                && b.label == "PowerShell 7"@
        }),
{
}

/// A new tab runs the configured shell, but for a PowerShell that is not there: it runs the command
/// prompt in its place.
pub proof fn law_new_tab_runs_configured_shell(
    cfg: Seq<char>,
    lower: Seq<char>,
    powershell: bool,
    at: int,
)
    ensures
        powershell ==> new_tab_command(cfg, lower, powershell) == cfg,
        !text::occurs(lower, "powershell"@) ==> new_tab_command(cfg, lower, powershell) == cfg,
        !powershell && text::occurs_at(lower, "powershell"@, at) ==> new_tab_command(
            cfg,
            lower,
            powershell,
        ) == "cmd.exe"@,
{
}

/// A shell is custom where it has a name and that name is none of the standard ones; it is then
/// offered once more than the standard shells are.
pub proof fn law_custom_shell_is_offered(
    cfg: Seq<char>,
    lower: Seq<char>,
    powershell: bool,
    cmd: bool,
    pwsh: bool,
)
    requires
        cfg.len() > 0,
        lower != "powershell.exe"@,
        lower != "cmd.exe"@,
        lower != "pwsh.exe"@,
    ensures
        ({
            let v = choices(cfg, lower, powershell, cmd, pwsh);
            let there = standard(powershell, cmd, pwsh);
            &&& v.len() == 1 + there.len()
            &&& v[0].cmd == cfg && v[0].label == label_for(lower)
            &&& v.skip(1) == there
        }),
{
    let v = choices(cfg, lower, powershell, cmd, pwsh);
    assert(v.skip(1) =~= standard(powershell, cmd, pwsh));
}

/// Lowering an ASCII text changes its capitals into the small letters 32 places on, and nothing
/// else.
pub proof fn law_ascii_lowered(s: Seq<char>, i: int)
    requires
        0 <= i < s.len(),
    ensures
        ascii_lowered(s).len() == s.len(),
        'A' <= s[i] <= 'Z' ==> ascii_lowered(s)[i] as u32 == s[i] as u32 + 32,
        !('A' <= s[i] <= 'Z') ==> ascii_lowered(s)[i] == s[i],
{
}

/// Where the configured shell is a standard one, or none is configured, the standard shells that
/// are there are offered and nothing more, or the command prompt where none of them is.
pub proof fn law_standard_shells_are_offered(
    cfg: Seq<char>,
    lower: Seq<char>,
    powershell: bool,
    cmd: bool,
    pwsh: bool,
)
    requires
        cfg.len() == 0 || lower == "powershell.exe"@ || lower == "cmd.exe"@ || lower == "pwsh.exe"@,
    ensures
        ({
            let v = choices(cfg, lower, powershell, cmd, pwsh);
            &&& powershell || cmd || pwsh ==> v == standard(powershell, cmd, pwsh)
            &&& !powershell && !cmd && !pwsh ==> v.len() == 1 && v[0].cmd == "cmd.exe"@ && v[0].label
                == "Command Prompt"@
        }),
        standard(powershell, cmd, pwsh).len() == (if powershell {
            1nat
        } else {
            0
        }) + (if cmd {
            1nat
        } else {
            0
        }) + (if pwsh {
            1nat
        } else {
            0
        }),
{
}

} // verus!
