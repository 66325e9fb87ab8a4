//! Configuration from the registry: the machine's values first, then the user's over them.
//!
//! The accent color is shared with the desktop shell that writes it; it falls back to the system's
//! own accent, then to a default. Registry colors are `0xAABBGGRR`, from which the alpha is
//! dropped.

use vstd::prelude::*;

use crate::text;

verus! {

/// Default accent when no accent is set anywhere: purple, RGB 230, 90, 180, as `0x00BBGGRR`.
pub const ACCENT_DEFAULT: u32 = 0x00B4_5AE6;

/// Smallest font cell height in pixels.
pub const FONT_PX_MIN: i32 = 8;

/// Largest font cell height in pixels.
pub const FONT_PX_MAX: i32 = 48;

/// Largest scrollback capacity in lines.
pub const SCROLLBACK_MAX: usize = 100_000;

pub struct Config {
    /// Shared accent (`0x00BBGGRR`).
    pub accent: u32,
    /// Shell command line to launch.
    pub shell: String,
    /// Preferred monospace font face (falls back if unavailable).
    pub font_face: String,
    /// Terminal font cell height in pixels.
    pub font_px: i32,
    /// Scrollback capacity in lines.
    pub scrollback: usize,
}

/// The values that one registry hive has set.
pub struct Hive {
    pub accent: Option<u32>,
    pub shell: Option<String>,
    pub font_face: Option<String>,
    pub font_size: Option<u32>,
    pub scrollback: Option<u32>,
}

#[verifier::ext_equal]
pub ghost struct ConfigView {
    pub accent: u32,
    pub shell: Seq<char>,
    pub font_face: Seq<char>,
    pub font_px: int,
    pub scrollback: int,
}

#[verifier::ext_equal]
pub ghost struct HiveView {
    pub accent: Option<u32>,
    pub shell: Option<Seq<char>>,
    pub font_face: Option<Seq<char>>,
    pub font_size: Option<u32>,
    pub scrollback: Option<u32>,
}

impl View for Config {
    type V = ConfigView;

    open spec fn view(&self) -> ConfigView {
        ConfigView {
            accent: self.accent,
            shell: self.shell@,
            font_face: self.font_face@,
            font_px: self.font_px as int,
            scrollback: self.scrollback as int,
        }
    }
}

impl View for Hive {
    type V = HiveView;

    open spec fn view(&self) -> HiveView {
        HiveView {
            accent: self.accent,
            shell: string_view(self.shell),
            font_face: string_view(self.font_face),
            font_size: self.font_size,
            scrollback: self.scrollback,
        }
    }
}

pub open spec fn string_view(s: Option<String>) -> Option<Seq<char>> {
    match s {
        Some(s) => Some(s@),
        None => None,
    }
}

/// `v` without its alpha.
pub open spec fn opaque_color(v: u32) -> u32 {
    v & 0x00ff_ffff
}

/// The font height a registry value asks for: read as a signed number and kept in range.
pub open spec fn font_height(v: u32) -> int {
    if v < FONT_PX_MIN || v > i32::MAX {
        FONT_PX_MIN as int
    } else if v > FONT_PX_MAX {
        FONT_PX_MAX as int
    } else {
        v as int
    }
}

/// The scrollback a registry value asks for.
pub open spec fn scrollback_lines(v: u32) -> int {
    if v > SCROLLBACK_MAX {
        SCROLLBACK_MAX as int
    } else {
        v as int
    }
}

/// A hive's string, unless it is blank.
pub open spec fn usable(s: Option<Seq<char>>) -> Option<Seq<char>> {
    match s {
        Some(s) if !text::blank(s) => Some(s),
        _ => None,
    }
}

pub open spec fn or_else<A>(a: Option<A>, b: A) -> A {
    match a {
        Some(a) => a,
        None => b,
    }
}

pub open spec fn map_value<A, B>(a: Option<A>, f: spec_fn(A) -> B) -> Option<B> {
    match a {
        Some(a) => Some(f(a)),
        None => None,
    }
}

impl ConfigView {
    pub open spec fn initial() -> ConfigView {
        ConfigView {
            accent: ACCENT_DEFAULT,
            shell: "powershell.exe"@,
            font_face: "Consolas"@,
            font_px: 16,
            scrollback: 5000,
        }
    }

    /// The settings with those of a hive over them.
    pub open spec fn overlay(self, h: HiveView) -> ConfigView {
        ConfigView {
            accent: or_else(map_value(h.accent, |v: u32| opaque_color(v)), self.accent),
            shell: or_else(usable(h.shell), self.shell),
            font_face: or_else(usable(h.font_face), self.font_face),
            font_px: or_else(map_value(h.font_size, |v: u32| font_height(v)), self.font_px),
            scrollback: or_else(
                map_value(h.scrollback, |v: u32| scrollback_lines(v)),
                self.scrollback,
            ),
        }
    }

    /// The settings that two hives and the system's accent come to.
    pub open spec fn loaded(
        machine: HiveView,
        user: HiveView,
        windows_accent: Option<u32>,
    ) -> ConfigView {
        let base = ConfigView {
            accent: or_else(map_value(windows_accent, |v: u32| opaque_color(v)), ACCENT_DEFAULT),
            ..ConfigView::initial()
        };
        base.overlay(machine).overlay(user)
    }
}

impl Default for Config {
    fn default() -> (c: Self)
        ensures
            c@ == ConfigView::initial(),
    {
        Config {
            accent: ACCENT_DEFAULT,
            shell: "powershell.exe".to_string(),
            font_face: "Consolas".to_string(),
            font_px: 16,
            scrollback: 5000,
        }
    }
}

impl Config {
    /// Put the values of a hive over these.
    pub fn apply(&mut self, h: &Hive)
        ensures
            final(self)@ == old(self)@.overlay(h@),
    {
        if let Some(v) = h.accent {
            self.accent = v & 0x00ff_ffff;
        }
        if let Some(v) = &h.shell {
            if !text::is_blank(v.as_str()) {
                self.shell = v.clone();
            }
        }
        if let Some(v) = &h.font_face {
            if !text::is_blank(v.as_str()) {
                self.font_face = v.clone();
            }
        }
        if let Some(v) = h.font_size {
            self.font_px = if v < 8 || v > 0x7fff_ffff {
                FONT_PX_MIN
            } else if v > 48 {
                FONT_PX_MAX
            } else {
                v as i32
            };
        }
        if let Some(v) = h.scrollback {
            self.scrollback = if v as usize > SCROLLBACK_MAX {
                SCROLLBACK_MAX
            } else {
                v as usize
            };
        }
    }

    /// The settings that the two hives and the system's accent come to.
    pub fn load(machine: &Hive, user: &Hive, windows_accent: Option<u32>) -> (c: Config)
        ensures
            c@ == ConfigView::loaded(machine@, user@, windows_accent),
    {
        let mut c: Config = Config::default();
        if let Some(v) = windows_accent {
            c.accent = v & 0x00ff_ffff;
        }
        c.apply(machine);
        c.apply(user);
        c
    }
}

/// A value the user has set wins, else one the machine has set, else the default. A blank string
/// counts as unset.
pub proof fn law_user_over_machine(machine: HiveView, user: HiveView, windows_accent: Option<u32>)
    ensures
        ({
            let c = ConfigView::loaded(machine, user, windows_accent);
            let d = ConfigView::initial();
            &&& c.shell == or_else(usable(user.shell), or_else(usable(machine.shell), d.shell))
            &&& c.font_face == or_else(
                usable(user.font_face),
                or_else(usable(machine.font_face), d.font_face),
            )
            &&& user.font_size matches Some(v) ==> c.font_px == font_height(v)
            &&& user.font_size is None ==> (machine.font_size matches Some(v) ==> c.font_px
                == font_height(v))
            &&& user.font_size is None && machine.font_size is None ==> c.font_px == d.font_px
            &&& user.scrollback matches Some(v) ==> c.scrollback == scrollback_lines(v)
            &&& user.scrollback is None ==> (machine.scrollback matches Some(v) ==> c.scrollback
                == scrollback_lines(v))
            &&& user.scrollback is None && machine.scrollback is None ==> c.scrollback
                == d.scrollback
        }),
{
}

/// The accent is the user's, else the machine's, else the system's, else the default.
pub proof fn law_accent_fallback(machine: HiveView, user: HiveView, windows_accent: Option<u32>)
    ensures
        ({
            let c = ConfigView::loaded(machine, user, windows_accent);
            &&& user.accent matches Some(v) ==> c.accent == opaque_color(v)
            &&& user.accent is None ==> (machine.accent matches Some(v) ==> c.accent
                == opaque_color(v))
            &&& user.accent is None && machine.accent is None ==> (windows_accent matches Some(v)
                ==> c.accent == opaque_color(v))
            &&& user.accent is None && machine.accent is None && windows_accent is None
                ==> c.accent == ACCENT_DEFAULT
        }),
{
}

/// Whatever the registry holds, the settings are usable: a font height and a scrollback in range,
/// a color without alpha, a shell and a font face with a name.
pub proof fn law_settings_in_range(machine: HiveView, user: HiveView, windows_accent: Option<u32>)
    ensures
        ({
            let c = ConfigView::loaded(machine, user, windows_accent);
            &&& FONT_PX_MIN <= c.font_px <= FONT_PX_MAX
            &&& 0 <= c.scrollback <= SCROLLBACK_MAX
            &&& c.accent < 0x0100_0000
            &&& !text::blank(c.shell)
            &&& !text::blank(c.font_face)
        }),
{
    assert(forall|v: u32| #[trigger] (v & 0x00ff_ffff) < 0x0100_0000) by (bit_vector);
    reveal_strlit("powershell.exe");
    reveal_strlit("Consolas");
    assert(!text::white_space("powershell.exe"@[0]));
    assert(!text::white_space("Consolas"@[0]));
}

/// The text has a character that is no whitespace.
pub open spec fn says_something(s: Option<Seq<char>>) -> bool {
    s matches Some(s) && exists|i: int| 0 <= i < s.len() && !text::white_space(#[trigger] s[i])
}

/// A shell and a font face are taken as they are written: the user's where it says something, else
/// the machine's where that does, else PowerShell and Consolas.
pub proof fn law_names_as_written(machine: HiveView, user: HiveView, windows_accent: Option<u32>)
    ensures
        ({
            let c = ConfigView::loaded(machine, user, windows_accent);
            &&& says_something(user.shell) ==> Some(c.shell) == user.shell
            &&& !says_something(user.shell) && says_something(machine.shell) ==> Some(c.shell)
                == machine.shell
            &&& !says_something(user.shell) && !says_something(machine.shell) ==> c.shell
                == "powershell.exe"@
            &&& says_something(user.font_face) ==> Some(c.font_face) == user.font_face
            &&& !says_something(user.font_face) && says_something(machine.font_face) ==> Some(
                c.font_face,
            ) == machine.font_face
            &&& !says_something(user.font_face) && !says_something(machine.font_face)
                ==> c.font_face == "Consolas"@
        }),
{
}

/// A font height from 8 to 48 pixels is taken as it is set, and one beyond that range as the end of
/// it; a number too large to be positive counts as below it. The default is 16.
pub proof fn law_font_height_in_range(machine: HiveView, user: HiveView, accent: Option<u32>, v: u32)
    requires
        user.font_size == Some(v) || (user.font_size is None && machine.font_size == Some(v)),
    ensures
        ({
            let px = ConfigView::loaded(machine, user, accent).font_px;
            &&& 8 <= v <= 48 ==> px == v
            &&& v < 8 || v >= 0x8000_0000 ==> px == 8
            &&& 48 < v < 0x8000_0000 ==> px == 48
        }),
        ConfigView::initial().font_px == 16,
{
}

/// A scrollback of up to 100000 lines is taken as it is set, and a longer one as that many. The
/// default is 5000.
pub proof fn law_scrollback_in_range(machine: HiveView, user: HiveView, accent: Option<u32>, v: u32)
    requires
        user.scrollback == Some(v) || (user.scrollback is None && machine.scrollback == Some(v)),
    ensures
        ({
            let lines = ConfigView::loaded(machine, user, accent).scrollback;
            &&& v <= 100_000 ==> lines == v
            &&& v > 100_000 ==> lines == 100_000
        }),
        ConfigView::initial().scrollback == 5000,
{
}

/// An accent keeps its three components and loses its alpha, wherever it comes from.
pub proof fn law_accent_keeps_components(
    machine: HiveView,
    user: HiveView,
    windows_accent: Option<u32>,
    v: u32,
)
    requires
        ({
            ||| user.accent == Some(v)
            ||| user.accent is None && machine.accent == Some(v)
            ||| user.accent is None && machine.accent is None && windows_accent == Some(v)
        }),
    ensures
        ConfigView::loaded(machine, user, windows_accent).accent as int == v as int % 0x0100_0000,
{
    assert(v & 0x00ff_ffff == v % 0x0100_0000) by (bit_vector);
}

} // verus!
