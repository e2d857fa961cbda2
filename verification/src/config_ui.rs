//! The configuration tabs: which tabs a build shows, the process environment
//! the JIT settings export, the PCAP interface summary line, and the edits
//! each widget makes to the machine configuration.

use vstd::prelude::*;
use vstd::string::StringExecFns;

use crate::config::{
    unique_ids, ForwardBind, ForwardProto, MachineConfig, NetMode, NfsConfig, NfsVersion,
    PortForwardConfig, ScsiDeviceConfig, VinoStandard, VinoSource,
};
use crate::text::{
    decimal, ends_with, is_white_space, push_decimal, str_ends_with, str_eq, string_copy,
    white_space,
};

verus! {

/// Which config tab is focused. Toolbar quick-buttons set this.
#[derive(Debug, Clone, Copy, PartialEq, Eq, Structural)]
pub enum Tab {
    General,
    Disks,
    Network,
    Memory,
    Display,
    VideoIn,
    Debug,
    Ci,
}

/// The tabs a build shows: the Debug/JIT tab is hidden in lightning builds
/// (the JIT debug paths it drives are compiled out), and the CI/Automation tab
/// in App Store builds.
pub open spec fn visible_tabs(lightning: bool, appstore: bool) -> Seq<Tab> {
    seq![Tab::General, Tab::Disks, Tab::Network, Tab::Memory, Tab::Display, Tab::VideoIn] + (
    if !lightning {
        seq![Tab::Debug]
    } else {
        Seq::empty()
    }) + (if !appstore {
        seq![Tab::Ci]
    } else {
        Seq::empty()
    })
}

pub open spec fn tab_label(t: Tab) -> Seq<char> {
    match t {
        Tab::General => "General"@,
        Tab::Disks => "Disks"@,
        Tab::Network => "Networking"@,
        Tab::Memory => "Memory"@,
        Tab::Display => "Display"@,
        Tab::VideoIn => "Video-In"@,
        Tab::Debug => "Debug / JIT"@,
        Tab::Ci => "CI / Automation"@,
    }
}

impl Tab {
    /// Tabs to show for a build with the given features.
    pub fn visible(lightning: bool, appstore: bool) -> (tabs: Vec<Tab>)
        ensures
            tabs@ == visible_tabs(lightning, appstore),
    {
        let mut tabs = vec![
            Tab::General,
            Tab::Disks,
            Tab::Network,
            Tab::Memory,
            Tab::Display,
            Tab::VideoIn,
        ];
        if !lightning {
            tabs.push(Tab::Debug);
        }
        if !appstore {
            tabs.push(Tab::Ci);
        }
        assert(tabs@ =~= visible_tabs(lightning, appstore));
        tabs
    }

    pub fn label(self) -> (s: &'static str)
        ensures
            s@ == tab_label(self),
    {
        match self {
            Tab::General => "General",
            Tab::Disks => "Disks",
            Tab::Network => "Networking",
            Tab::Memory => "Memory",
            Tab::Display => "Display",
            Tab::VideoIn => "Video-In",
            Tab::Debug => "Debug / JIT",
            Tab::Ci => "CI / Automation",
        }
    }
}

/// IRIS_JIT* environment settings exposed as GUI fields. They are exported
/// into the process environment before the machine is built. All optional;
/// empty means "leave default".
#[derive(Debug, Clone)]
pub struct JitEnv {
    pub iris_jit: bool,
    pub max_tier: Option<u8>,
    pub verify: bool,
    pub no_stores: bool,
    pub probe: String,
    pub trace_file: String,
    pub profile_file: String,
    pub no_idle: bool,
    pub debug_log: String,
}

impl Default for JitEnv {
    fn default() -> (j: Self)
        ensures
            !j.iris_jit && j.max_tier is None && !j.verify && !j.no_stores && !j.no_idle,
            j.probe@.len() == 0 && j.trace_file@.len() == 0 && j.profile_file@.len() == 0
                && j.debug_log@.len() == 0,
    {
        JitEnv {
            iris_jit: false,
            max_tier: None,
            verify: false,
            no_stores: false,
            probe: String::new(),
            trace_file: String::new(),
            profile_file: String::new(),
            no_idle: false,
            debug_log: String::new(),
        }
    }
}

pub open spec fn var_if(on: bool, name: Seq<char>, value: Seq<char>) -> Seq<
    (Seq<char>, Seq<char>),
> {
    if on {
        seq![(name, value)]
    } else {
        Seq::empty()
    }
}

/// The (variable, value) pairs the JIT settings export, in order.
pub open spec fn jit_vars(
    iris_jit: bool,
    max_tier: Option<u8>,
    verify: bool,
    no_stores: bool,
    probe: Seq<char>,
    trace_file: Seq<char>,
    profile_file: Seq<char>,
    no_idle: bool,
    debug_log: Seq<char>,
) -> Seq<(Seq<char>, Seq<char>)> {
    var_if(iris_jit, "IRIS_JIT"@, "1"@) + (match max_tier {
        Some(t) => seq![("IRIS_JIT_MAX_TIER"@, decimal(t as nat))],
        None => Seq::empty(),
    }) + var_if(verify, "IRIS_JIT_VERIFY"@, "1"@) + var_if(no_stores, "IRIS_JIT_NO_STORES"@, "1"@)
        + var_if(probe.len() > 0, "IRIS_JIT_PROBE"@, probe) + var_if(
        trace_file.len() > 0,
        "IRIS_JIT_TRACE"@,
        trace_file,
    ) + var_if(profile_file.len() > 0, "IRIS_JIT_PROFILE"@, profile_file) + var_if(
        no_idle,
        "IRIS_NO_IDLE"@,
        "1"@,
    ) + var_if(debug_log.len() > 0, "IRIS_DEBUG_LOG"@, debug_log)
}

/// The value a list of (variable, value) pairs gives `name`: that of its
/// first pair with that name.
pub open spec fn exported(vars: Seq<(Seq<char>, Seq<char>)>, name: Seq<char>) -> Option<
    Seq<char>,
>
    decreases vars.len(),
{
    if vars.len() == 0 {
        None
    } else if vars[0].0 == name {
        Some(vars[0].1)
    } else {
        exported(vars.drop_first(), name)
    }
}

proof fn lemma_exported_concat(
    a: Seq<(Seq<char>, Seq<char>)>,
    b: Seq<(Seq<char>, Seq<char>)>,
    name: Seq<char>,
)
    ensures
        exported(a + b, name) == match exported(a, name) {
            Some(x) => Some(x),
            None => exported(b, name),
        },
    decreases a.len(),
{
    if a.len() == 0 {
        assert(a + b =~= b);
    } else {
        assert((a + b).drop_first() =~= a.drop_first() + b);
        lemma_exported_concat(a.drop_first(), b, name);
    }
}

proof fn lemma_exported_var_if(on: bool, var: Seq<char>, value: Seq<char>, name: Seq<char>)
    ensures
        exported(var_if(on, var, value), name) == if on && var == name {
            Some(value)
        } else {
            None
        },
{
    let empty = Seq::<(Seq<char>, Seq<char>)>::empty();
    assert(exported(empty, name) is None);
    if on {
        assert(var_if(on, var, value).drop_first() =~= empty);
    }
}

/// Each JIT setting exports its own variable and no other: `IRIS_JIT=1` when
/// the JIT is on, `IRIS_JIT_MAX_TIER` with the tier in decimal when one is
/// set, `IRIS_JIT_VERIFY=1` when verifying, `IRIS_JIT_NO_STORES=1` when
/// stores are off, `IRIS_JIT_PROBE`, `IRIS_JIT_TRACE`, `IRIS_JIT_PROFILE` and
/// `IRIS_DEBUG_LOG` with their text when it is not empty, and
/// `IRIS_NO_IDLE=1` when idle parking is off; an unset setting exports
/// nothing.
pub proof fn law_jit_settings_export_their_own_variables(
    iris_jit: bool,
    max_tier: Option<u8>,
    verify: bool,
    no_stores: bool,
    probe: Seq<char>,
    trace_file: Seq<char>,
    profile_file: Seq<char>,
    no_idle: bool,
    debug_log: Seq<char>,
)
    ensures
        ({
            let vars = jit_vars(
                iris_jit,
                max_tier,
                verify,
                no_stores,
                probe,
                trace_file,
                profile_file,
                no_idle,
                debug_log,
            );
            &&& exported(vars, "IRIS_JIT"@) == if iris_jit {
                Some("1"@)
            } else {
                None
            }
            &&& exported(vars, "IRIS_JIT_MAX_TIER"@) == match max_tier {
                Some(t) => Some(decimal(t as nat)),
                None => None,
            }
            &&& exported(vars, "IRIS_JIT_VERIFY"@) == if verify {
                Some("1"@)
            } else {
                None
            }
            &&& exported(vars, "IRIS_JIT_NO_STORES"@) == if no_stores {
                Some("1"@)
            } else {
                None
            }
            &&& exported(vars, "IRIS_JIT_PROBE"@) == if probe.len() > 0 {
                Some(probe)
            } else {
                None
            }
            &&& exported(vars, "IRIS_JIT_TRACE"@) == if trace_file.len() > 0 {
                Some(trace_file)
            } else {
                None
            }
            &&& exported(vars, "IRIS_JIT_PROFILE"@) == if profile_file.len() > 0 {
                Some(profile_file)
            } else {
                None
            }
            &&& exported(vars, "IRIS_NO_IDLE"@) == if no_idle {
                Some("1"@)
            } else {
                None
            }
            &&& exported(vars, "IRIS_DEBUG_LOG"@) == if debug_log.len() > 0 {
                Some(debug_log)
            } else {
                None
            }
        }),
{
    reveal_strlit("IRIS_JIT");
    reveal_strlit("IRIS_JIT_MAX_TIER");
    reveal_strlit("IRIS_JIT_VERIFY");
    reveal_strlit("IRIS_JIT_NO_STORES");
    reveal_strlit("IRIS_JIT_PROBE");
    reveal_strlit("IRIS_JIT_TRACE");
    reveal_strlit("IRIS_JIT_PROFILE");
    reveal_strlit("IRIS_NO_IDLE");
    reveal_strlit("IRIS_DEBUG_LOG");
    let names = seq![
        "IRIS_JIT"@,
        "IRIS_JIT_MAX_TIER"@,
        "IRIS_JIT_VERIFY"@,
        "IRIS_JIT_NO_STORES"@,
        "IRIS_JIT_PROBE"@,
        "IRIS_JIT_TRACE"@,
        "IRIS_JIT_PROFILE"@,
        "IRIS_NO_IDLE"@,
        "IRIS_DEBUG_LOG"@,
    ];
    assert(names[0].len() == 8);
    assert(names[1].len() == 17);
    assert(names[2].len() == 15);
    assert(names[3].len() == 18);
    assert(names[4].len() == 14 && names[4][9] == 'P');
    assert(names[5].len() == 14 && names[5][9] == 'T' && names[5][5] == 'J');
    assert(names[6].len() == 16);
    assert(names[7].len() == 12);
    assert(names[8].len() == 14 && names[8][5] == 'D');
    assert forall|k: int| 0 <= k < 9 implies jit_export_matches(
        iris_jit,
        max_tier,
        verify,
        no_stores,
        probe,
        trace_file,
        profile_file,
        no_idle,
        debug_log,
        #[trigger] names[k],
    ) by {
        lemma_jit_exported(
            iris_jit,
            max_tier,
            verify,
            no_stores,
            probe,
            trace_file,
            profile_file,
            no_idle,
            debug_log,
            names[k],
        );
    }
    assert(jit_export_matches(iris_jit, max_tier, verify, no_stores, probe, trace_file, profile_file, no_idle, debug_log, names[0]));
    assert(jit_export_matches(iris_jit, max_tier, verify, no_stores, probe, trace_file, profile_file, no_idle, debug_log, names[1]));
    assert(jit_export_matches(iris_jit, max_tier, verify, no_stores, probe, trace_file, profile_file, no_idle, debug_log, names[2]));
    assert(jit_export_matches(iris_jit, max_tier, verify, no_stores, probe, trace_file, profile_file, no_idle, debug_log, names[3]));
    assert(jit_export_matches(iris_jit, max_tier, verify, no_stores, probe, trace_file, profile_file, no_idle, debug_log, names[4]));
    assert(jit_export_matches(iris_jit, max_tier, verify, no_stores, probe, trace_file, profile_file, no_idle, debug_log, names[5]));
    assert(jit_export_matches(iris_jit, max_tier, verify, no_stores, probe, trace_file, profile_file, no_idle, debug_log, names[6]));
    assert(jit_export_matches(iris_jit, max_tier, verify, no_stores, probe, trace_file, profile_file, no_idle, debug_log, names[7]));
    assert(jit_export_matches(iris_jit, max_tier, verify, no_stores, probe, trace_file, profile_file, no_idle, debug_log, names[8]));
}

/// The value the JIT settings export for `n`: that of the first setting, in
/// export order, whose variable is `n` and which is set.
pub open spec fn jit_export_matches(
    iris_jit: bool,
    max_tier: Option<u8>,
    verify: bool,
    no_stores: bool,
    probe: Seq<char>,
    trace_file: Seq<char>,
    profile_file: Seq<char>,
    no_idle: bool,
    debug_log: Seq<char>,
    n: Seq<char>,
) -> bool {
    exported(
        jit_vars(
            iris_jit,
            max_tier,
            verify,
            no_stores,
            probe,
            trace_file,
            profile_file,
            no_idle,
            debug_log,
        ),
        n,
    ) == if iris_jit && n == "IRIS_JIT"@ {
        Some("1"@)
    } else if max_tier is Some && n == "IRIS_JIT_MAX_TIER"@ {
        Some(decimal(max_tier->0 as nat))
    } else if verify && n == "IRIS_JIT_VERIFY"@ {
        Some("1"@)
    } else if no_stores && n == "IRIS_JIT_NO_STORES"@ {
        Some("1"@)
    } else if probe.len() > 0 && n == "IRIS_JIT_PROBE"@ {
        Some(probe)
    } else if trace_file.len() > 0 && n == "IRIS_JIT_TRACE"@ {
        Some(trace_file)
    } else if profile_file.len() > 0 && n == "IRIS_JIT_PROFILE"@ {
        Some(profile_file)
    } else if no_idle && n == "IRIS_NO_IDLE"@ {
        Some("1"@)
    } else if debug_log.len() > 0 && n == "IRIS_DEBUG_LOG"@ {
        Some(debug_log)
    } else {
        None
    }
}

proof fn lemma_jit_exported(
    iris_jit: bool,
    max_tier: Option<u8>,
    verify: bool,
    no_stores: bool,
    probe: Seq<char>,
    trace_file: Seq<char>,
    profile_file: Seq<char>,
    no_idle: bool,
    debug_log: Seq<char>,
    n: Seq<char>,
)
    ensures
        jit_export_matches(
            iris_jit,
            max_tier,
            verify,
            no_stores,
            probe,
            trace_file,
            profile_file,
            no_idle,
            debug_log,
            n,
        ),
{
    let p1 = var_if(iris_jit, "IRIS_JIT"@, "1"@);
    let p2: Seq<(Seq<char>, Seq<char>)> = match max_tier {
        Some(t) => seq![("IRIS_JIT_MAX_TIER"@, decimal(t as nat))],
        None => Seq::empty(),
    };
    let p3 = var_if(verify, "IRIS_JIT_VERIFY"@, "1"@);
    let p4 = var_if(no_stores, "IRIS_JIT_NO_STORES"@, "1"@);
    let p5 = var_if(probe.len() > 0, "IRIS_JIT_PROBE"@, probe);
    let p6 = var_if(trace_file.len() > 0, "IRIS_JIT_TRACE"@, trace_file);
    let p7 = var_if(profile_file.len() > 0, "IRIS_JIT_PROFILE"@, profile_file);
    let p8 = var_if(no_idle, "IRIS_NO_IDLE"@, "1"@);
    let p9 = var_if(debug_log.len() > 0, "IRIS_DEBUG_LOG"@, debug_log);
    match max_tier {
        Some(t) => {
            lemma_exported_var_if(true, "IRIS_JIT_MAX_TIER"@, decimal(t as nat), n);
        },
        None => {
            lemma_exported_var_if(false, "IRIS_JIT_MAX_TIER"@, Seq::empty(), n);
        },
    }
    lemma_exported_concat(p1 + p2 + p3 + p4 + p5 + p6 + p7 + p8, p9, n);
    lemma_exported_concat(p1 + p2 + p3 + p4 + p5 + p6 + p7, p8, n);
    lemma_exported_concat(p1 + p2 + p3 + p4 + p5 + p6, p7, n);
    lemma_exported_concat(p1 + p2 + p3 + p4 + p5, p6, n);
    lemma_exported_concat(p1 + p2 + p3 + p4, p5, n);
    lemma_exported_concat(p1 + p2 + p3, p4, n);
    lemma_exported_concat(p1 + p2, p3, n);
    lemma_exported_concat(p1, p2, n);
    lemma_exported_var_if(iris_jit, "IRIS_JIT"@, "1"@, n);
    lemma_exported_var_if(verify, "IRIS_JIT_VERIFY"@, "1"@, n);
    lemma_exported_var_if(no_stores, "IRIS_JIT_NO_STORES"@, "1"@, n);
    lemma_exported_var_if(probe.len() > 0, "IRIS_JIT_PROBE"@, probe, n);
    lemma_exported_var_if(trace_file.len() > 0, "IRIS_JIT_TRACE"@, trace_file, n);
    lemma_exported_var_if(profile_file.len() > 0, "IRIS_JIT_PROFILE"@, profile_file, n);
    lemma_exported_var_if(no_idle, "IRIS_NO_IDLE"@, "1"@, n);
    lemma_exported_var_if(debug_log.len() > 0, "IRIS_DEBUG_LOG"@, debug_log, n);
}

pub open spec fn pairs_view(v: Seq<(String, String)>) -> Seq<(Seq<char>, Seq<char>)> {
    v.map_values(|p: (String, String)| (p.0@, p.1@))
}

fn push_var(out: &mut Vec<(String, String)>, on: bool, name: &str, value: String)
    ensures
        pairs_view(final(out)@) == pairs_view(old(out)@) + var_if(on, name@, value@),
{
    if on {
        out.push((String::from_str(name), value));
        assert(pairs_view(final(out)@) =~= pairs_view(old(out)@) + var_if(on, name@, value@));
    } else {
        assert(pairs_view(final(out)@) =~= pairs_view(old(out)@) + var_if(on, name@, value@));
    }
}

impl JitEnv {
    /// The process environment these settings export: each set field becomes
    /// one (variable, value) pair, in the order the emulator core reads them.
    pub fn env_vars(&self) -> (vars: Vec<(String, String)>)
        ensures
            pairs_view(vars@) == jit_vars(
                self.iris_jit,
                self.max_tier,
                self.verify,
                self.no_stores,
                self.probe@,
                self.trace_file@,
                self.profile_file@,
                self.no_idle,
                self.debug_log@,
            ),
    {
        let mut out: Vec<(String, String)> = Vec::new();
        push_var(&mut out, self.iris_jit, "IRIS_JIT", String::from_str("1"));
        match self.max_tier {
            Some(t) => {
                let mut v = String::new();
                push_decimal(&mut v, t as u64);
                push_var(&mut out, true, "IRIS_JIT_MAX_TIER", v);
            },
            None => {
                push_var(&mut out, false, "IRIS_JIT_MAX_TIER", String::new());
            },
        }
        push_var(&mut out, self.verify, "IRIS_JIT_VERIFY", String::from_str("1"));
        push_var(&mut out, self.no_stores, "IRIS_JIT_NO_STORES", String::from_str("1"));
        push_var(&mut out, self.probe.unicode_len() > 0, "IRIS_JIT_PROBE", string_copy(&self.probe));
        push_var(
            &mut out,
            self.trace_file.unicode_len() > 0,
            "IRIS_JIT_TRACE",
            string_copy(&self.trace_file),
        );
        push_var(
            &mut out,
            self.profile_file.unicode_len() > 0,
            "IRIS_JIT_PROFILE",
            string_copy(&self.profile_file),
        );
        push_var(&mut out, self.no_idle, "IRIS_NO_IDLE", String::from_str("1"));
        push_var(
            &mut out,
            self.debug_log.unicode_len() > 0,
            "IRIS_DEBUG_LOG",
            string_copy(&self.debug_log),
        );
        assert(pairs_view(out@) =~= jit_vars(
            self.iris_jit,
            self.max_tier,
            self.verify,
            self.no_stores,
            self.probe@,
            self.trace_file@,
            self.profile_file@,
            self.no_idle,
            self.debug_log@,
        ));
        out
    }
}

/// Action a config tab asks the app to perform that needs app-level state
/// (e.g. a confirmation modal) the immediate-mode tab UI doesn't own.
#[derive(Debug, Clone, Copy, PartialEq, Eq, Structural)]
pub enum ConfigAction {
    NoAction,
    /// User clicked "Use embedded PROM"; the app should confirm and, if
    /// accepted, clear `cfg.prom` (an empty path falls back to the built-in
    /// PROM).
    RequestEmbeddedProm,
    /// User clicked "Test Camera" on the Video-In tab.
    TestCamera,
    /// User clicked "Refresh" on the Network tab's PCAP selector.
    RefreshPcapIfaces,
}

impl Default for ConfigAction {
    fn default() -> (a: Self)
        ensures
            a == ConfigAction::NoAction,
    {
        ConfigAction::NoAction
    }
}

/// A host network interface candidate for the PCAP backend selector.
#[derive(Debug, Clone)]
pub struct PcapIface {
    pub name: String,
    pub description: Option<String>,
    pub addrs: Vec<String>,
    pub up: bool,
    pub running: bool,
    pub loopback: bool,
}

/// The state tags of an interface, in order.
pub open spec fn iface_tags(up: bool, running: bool, loopback: bool) -> Seq<Seq<char>> {
    (if up {
        seq!["up"@]
    } else {
        Seq::empty()
    }) + (if running {
        seq!["running"@]
    } else {
        Seq::empty()
    }) + (if loopback {
        seq!["loopback"@]
    } else {
        Seq::empty()
    })
}

/// `parts` joined with `sep` between neighbours.
pub open spec fn joined(parts: Seq<Seq<char>>, sep: Seq<char>) -> Seq<char>
    decreases parts.len(),
{
    if parts.len() == 0 {
        Seq::empty()
    } else if parts.len() == 1 {
        parts[0]
    } else {
        joined(parts.drop_last(), sep) + sep + parts.last()
    }
}

/// The one-line dropdown summary: the name, the state tags in brackets, the
/// first address, and the description (the NIC model; Windows device names
/// are opaque GUIDs) when there is a non-empty one.
pub open spec fn iface_summary(
    name: Seq<char>,
    tags: Seq<Seq<char>>,
    first_addr: Option<Seq<char>>,
    description: Option<Seq<char>>,
) -> Seq<char> {
    name + (if tags.len() > 0 {
        "  ["@ + joined(tags, ","@) + "]"@
    } else {
        Seq::empty()
    }) + (match first_addr {
        Some(ip) => "  "@ + ip,
        None => Seq::empty(),
    }) + (match description {
        Some(d) => if d.len() > 0 {
            "  — "@ + d
        } else {
            Seq::empty()
        },
        None => Seq::empty(),
    })
}

pub open spec fn opt_view(o: Option<String>) -> Option<Seq<char>> {
    match o {
        Some(s) => Some(s@),
        None => None,
    }
}

fn append_tag(s: &mut String, any: bool, tag: &str)
    ensures
        final(s)@ == old(s)@ + (if any {
            ","@
        } else {
            Seq::empty()
        }) + tag@,
{
    if any {
        s.append(",");
    } else {
        assert(old(s)@ + Seq::<char>::empty() =~= old(s)@);
    }
    s.append(tag);
}

/// The state tags joined with commas.
fn tags_text(up: bool, running: bool, loopback: bool) -> (t: String)
    ensures
        t@ == joined(iface_tags(up, running, loopback), ","@),
{
    let ghost a = if up {
        seq!["up"@]
    } else {
        Seq::<Seq<char>>::empty()
    };
    let ghost ab = a + (if running {
        seq!["running"@]
    } else {
        Seq::<Seq<char>>::empty()
    });
    let ghost tags = iface_tags(up, running, loopback);
    let mut t = String::new();
    if up {
        t.append("up");
    }
    assert(t@ == joined(a, ","@)) by {
        if up {
            assert(a.len() == 1);
        } else {
            assert(a.len() == 0);
        }
    }
    if running {
        append_tag(&mut t, up, "running");
    }
    assert(t@ == joined(ab, ","@)) by {
        if running {
            assert(ab.drop_last() =~= a);
            assert(ab.last() == "running"@);
            if !up {
                assert(ab =~= seq!["running"@]);
                assert(t@ =~= "running"@);
            }
        } else {
            assert(ab =~= a);
        }
    }
    if loopback {
        append_tag(&mut t, up || running, "loopback");
    }
    assert(t@ == joined(tags, ","@)) by {
        if loopback {
            assert(tags.drop_last() =~= ab);
            assert(tags.last() == "loopback"@);
            if !up && !running {
                assert(tags =~= seq!["loopback"@]);
                assert(t@ =~= "loopback"@);
            }
        } else {
            assert(tags =~= ab);
        }
    }
    t
}

impl PcapIface {
    /// One-line summary for the dropdown row.
    pub fn summary(&self) -> (s: String)
        ensures
            s@ == iface_summary(
                self.name@,
                iface_tags(self.up, self.running, self.loopback),
                if self.addrs@.len() > 0 {
                    Some(self.addrs@[0]@)
                } else {
                    None
                },
                opt_view(self.description),
            ),
    {
        let ghost tags = iface_tags(self.up, self.running, self.loopback);
        let mut s = string_copy(&self.name);
        if self.up || self.running || self.loopback {
            let t = tags_text(self.up, self.running, self.loopback);
            s.append("  [");
            s.append(t.as_str());
            s.append("]");
        } else {
            assert(tags.len() == 0);
        }
        let ghost s1 = s@;
        assert(s1 =~= self.name@ + (if tags.len() > 0 {
            "  ["@ + joined(tags, ","@) + "]"@
        } else {
            Seq::empty()
        }));
        if self.addrs.len() > 0 {
            s.append("  ");
            s.append(self.addrs[0].as_str());
        }
        let ghost s2 = s@;
        match &self.description {
            Some(d) => {
                if d.unicode_len() > 0 {
                    s.append("  — ");
                    s.append(d.as_str());
                }
            },
            None => {},
        }
        assert(s@ =~= iface_summary(
            self.name@,
            tags,
            if self.addrs@.len() > 0 {
                Some(self.addrs@[0]@)
            } else {
                None
            },
            opt_view(self.description),
        ));
        s
    }
}

// ── edits made by the tab widgets ───────────────────────────────────────────

/// The image path a freshly attached SCSI target starts with.
pub open spec fn placeholder_path(id: u8) -> Seq<char> {
    "scsi"@ + decimal(id as nat) + ".raw"@
}

pub fn scsi_placeholder_path(id: u8) -> (s: String)
    ensures
        s@ == placeholder_path(id),
{
    let mut s = String::from_str("scsi");
    push_decimal(&mut s, id as u64);
    s.append(".raw");
    s
}

/// The SCSI entries other than target `id`, in order.
pub open spec fn without_id(s: Seq<(u8, ScsiDeviceConfig)>, id: u8) -> Seq<(u8, ScsiDeviceConfig)>
    decreases s.len(),
{
    if s.len() == 0 {
        s
    } else if s.last().0 == id {
        without_id(s.drop_last(), id)
    } else {
        without_id(s.drop_last(), id).push(s.last())
    }
}

pub open spec fn has_id(s: Seq<(u8, ScsiDeviceConfig)>, id: u8) -> bool {
    exists|i: int| 0 <= i < s.len() && s[i].0 == id
}

fn remove_id(scsi: &mut Vec<(u8, ScsiDeviceConfig)>, id: u8)
    ensures
        final(scsi)@ == without_id(old(scsi)@, id),
{
    let mut kept: Vec<(u8, ScsiDeviceConfig)> = Vec::new();
    let ghost all = scsi@;
    let n = scsi.len();
    let mut k: usize = 0;
    assert(kept@ =~= without_id(all.subrange(0, 0), id));
    while scsi.len() > 0
        invariant
            k <= all.len(),
            n == all.len(),
            scsi@ =~= all.subrange(k as int, all.len() as int),
            kept@ == without_id(all.subrange(0, k as int), id),
        decreases scsi@.len(),
    {
        let e = scsi.remove(0);
        assert(e == all[k as int]);
        assert(all.subrange(0, k + 1).drop_last() =~= all.subrange(0, k as int));
        assert(all.subrange(0, k + 1).last() == all[k as int]);
        if e.0 != id {
            kept.push(e);
        }
        k = k + 1;
    }
    assert(all.subrange(0, all.len() as int) =~= all);
    *scsi = kept;
}

/// Attach a fresh HDD placeholder at SCSI target `id` (replacing any device
/// already there): image `scsi<id>.raw`, no changer discs, no overlay.
pub fn attach_scsi(cfg: &mut MachineConfig, id: u8)
    ensures
        *final(cfg) == (MachineConfig { scsi: final(cfg).scsi, ..*old(cfg) }),
        final(cfg).scsi@.len() >= 1,
        final(cfg).scsi@.drop_last() == without_id(old(cfg).scsi@, id),
        ({
            let (i, d) = final(cfg).scsi@.last();
            &&& i == id
            &&& d.path@ == placeholder_path(id)
            &&& d.discs@.len() == 0
            &&& !d.cdrom && !d.overlay && !d.scratch
            &&& d.size_mb is None
        }),
{
    remove_id(&mut cfg.scsi, id);
    let ghost kept = cfg.scsi@;
    cfg.scsi.push(
        (
            id,
            ScsiDeviceConfig {
                path: scsi_placeholder_path(id),
                discs: Vec::new(),
                cdrom: false,
                overlay: false,
                scratch: false,
                size_mb: None,
            },
        ),
    );
    assert(cfg.scsi@.drop_last() =~= kept);
}

/// Detach SCSI target `id`.
pub fn remove_scsi(cfg: &mut MachineConfig, id: u8)
    ensures
        *final(cfg) == (MachineConfig { scsi: final(cfg).scsi, ..*old(cfg) }),
        final(cfg).scsi@ == without_id(old(cfg).scsi@, id),
{
    remove_id(&mut cfg.scsi, id);
}

proof fn lemma_without_id(s: Seq<(u8, ScsiDeviceConfig)>, id: u8)
    ensures
        forall|k: int|
            0 <= k < without_id(s, id).len() ==> #[trigger] without_id(s, id)[k].0 != id && has_id(
                s,
                without_id(s, id)[k].0,
            ),
        unique_ids(s) ==> unique_ids(without_id(s, id)),
    decreases s.len(),
{
    if s.len() > 0 {
        let p = s.drop_last();
        let x = s.last();
        let wp = without_id(p, id);
        lemma_without_id(p, id);
        assert forall|k: int| 0 <= k < wp.len() implies has_id(s, #[trigger] wp[k].0) by {
            let m = choose|m: int| 0 <= m < p.len() && p[m].0 == wp[k].0;
            assert(s[m] == p[m]);
        }
        if x.0 != id {
            let w = without_id(s, id);
            assert(w == wp.push(x));
            assert forall|k: int| 0 <= k < w.len() implies #[trigger] w[k].0 != id && has_id(
                s,
                w[k].0,
            ) by {
                if k < wp.len() {
                    assert(w[k] == wp[k]);
                } else {
                    assert(s[s.len() - 1] == x);
                }
            }
            if unique_ids(s) {
                assert(unique_ids(p)) by {
                    assert forall|i: int, j: int| 0 <= i < j < p.len() implies p[i].0 != p[j].0 by {
                        assert(p[i] == s[i] && p[j] == s[j]);
                    }
                }
                assert forall|i: int, j: int| 0 <= i < j < w.len() implies w[i].0 != w[j].0 by {
                    if j == wp.len() {
                        assert(w[i] == wp[i]);
                        let m = choose|m: int| 0 <= m < p.len() && p[m].0 == wp[i].0;
                        assert(s[m] == p[m]);
                        assert(s[s.len() - 1] == x);
                    } else {
                        assert(w[i] == wp[i] && w[j] == wp[j]);
                    }
                }
            }
        } else {
            if unique_ids(s) {
                assert forall|i: int, j: int| 0 <= i < j < p.len() implies p[i].0 != p[j].0 by {
                    assert(p[i] == s[i] && p[j] == s[j]);
                }
            }
        }
    }
}

proof fn lemma_without_absent(s: Seq<(u8, ScsiDeviceConfig)>, id: u8)
    requires
        forall|k: int| 0 <= k < s.len() ==> #[trigger] s[k].0 != id,
    ensures
        without_id(s, id) == s,
    decreases s.len(),
{
    if s.len() > 0 {
        let p = s.drop_last();
        assert forall|k: int| 0 <= k < p.len() implies #[trigger] p[k].0 != id by {
            assert(p[k] == s[k]);
        }
        lemma_without_absent(p, id);
        assert(p.push(s.last()) =~= s);
    }
}

/// Attaching (replacing) or detaching a SCSI target keeps every target id at
/// most once.
pub proof fn law_scsi_ids_stay_unique(
    s: Seq<(u8, ScsiDeviceConfig)>,
    id: u8,
    dev: ScsiDeviceConfig,
)
    requires
        unique_ids(s),
    ensures
        unique_ids(without_id(s, id)),
        unique_ids(without_id(s, id).push((id, dev))),
{
    lemma_without_id(s, id);
    let w = without_id(s, id);
    let a = w.push((id, dev));
    assert forall|i: int, j: int| 0 <= i < j < a.len() implies a[i].0 != a[j].0 by {
        assert(a[i] == w[i]);
        if j < w.len() {
            assert(a[j] == w[j]);
        }
    }
}

/// Detaching a target right after attaching it leaves the other targets as
/// they were before the attach.
pub proof fn law_attach_then_remove(s: Seq<(u8, ScsiDeviceConfig)>, id: u8, dev: ScsiDeviceConfig)
    ensures
        without_id(without_id(s, id).push((id, dev)), id) == without_id(s, id),
{
    let w = without_id(s, id);
    lemma_without_id(s, id);
    assert(w.push((id, dev)).drop_last() =~= w);
    lemma_without_absent(w, id);
}

/// Switching a target's type. Switching an HDD to CD-ROM defaults to an
/// empty drive: the auto-generated placeholder path is cleared so it doesn't
/// look like a (missing) disc.
pub fn set_device_type(dev: &mut ScsiDeviceConfig, id: u8, is_cd: bool)
    ensures
        final(dev).cdrom == is_cd,
        final(dev).path@ == (if is_cd && !old(dev).cdrom && old(dev).path@ == placeholder_path(id) {
            Seq::<char>::empty()
        } else {
            old(dev).path@
        }),
        final(dev).discs == old(dev).discs,
        final(dev).overlay == old(dev).overlay,
        final(dev).scratch == old(dev).scratch,
        final(dev).size_mb == old(dev).size_mb,
{
    let was_cd = dev.cdrom;
    if is_cd && !was_cd {
        let p = scsi_placeholder_path(id);
        if str_eq(dev.path.as_str(), p.as_str()) {
            dev.path = String::new();
        }
    }
    dev.cdrom = is_cd;
}

/// Whether the "empty drive (no media)" hint shows: a CD-ROM with no path.
pub fn is_empty_drive(dev: &ScsiDeviceConfig) -> (r: bool)
    ensures
        r == (dev.cdrom && dev.path@.len() == 0),
{
    dev.cdrom && dev.path.unicode_len() == 0
}

/// Whether the ".chd path but no CHD support" warning shows.
pub fn chd_unsupported(dev: &ScsiDeviceConfig, chd_support: bool) -> (r: bool)
    ensures
        r == (ends_with(dev.path@, ".chd"@) && !chd_support),
{
    str_ends_with(dev.path.as_str(), ".chd") && !chd_support
}

/// The scratch size the size field shows (64 MB until one is set).
pub fn scratch_size_shown(dev: &ScsiDeviceConfig) -> (mb: u32)
    ensures
        mb == match dev.size_mb {
            Some(m) => m,
            None => 64,
        },
{
    match dev.size_mb {
        Some(m) => m,
        None => 64,
    }
}

pub open spec fn bank_total(banks: [u32; 4]) -> int {
    banks[0] + banks[1] + banks[2] + banks[3]
}

/// Total RAM over the four banks, in MB.
pub fn total_ram_mb(banks: &[u32; 4]) -> (total: u32)
    requires
        bank_total(*banks) <= u32::MAX,
    ensures
        total == bank_total(*banks),
{
    banks[0] + banks[1] + banks[2] + banks[3]
}

/// The GDB stub port field: 0 means no stub.
pub fn gdb_port_from_field(port: u16) -> (p: Option<u16>)
    ensures
        p == (if port == 0 {
            None
        } else {
            Some(port)
        }),
{
    if port == 0 {
        None
    } else {
        Some(port)
    }
}

/// An optional text setting from its text field: empty means unset.
pub fn optional_text(s: String) -> (o: Option<String>)
    ensures
        match o {
            Some(t) => s@.len() > 0 && t@ == s@,
            None => s@.len() == 0,
        },
{
    if s.unicode_len() == 0 {
        None
    } else {
        Some(s)
    }
}

pub open spec fn blank(s: Seq<char>) -> bool {
    forall|i: int| 0 <= i < s.len() ==> white_space(s[i])
}

/// Whether `s` is empty once surrounding whitespace is trimmed.
pub fn is_blank(s: &str) -> (r: bool)
    ensures
        r == blank(s@),
{
    let n = s.unicode_len();
    let mut i: usize = 0;
    while i < n
        invariant
            n == s@.len(),
            i <= n,
            forall|j: int| 0 <= j < i ==> white_space(s@[j]),
        decreases n - i,
    {
        if !is_white_space(s.get_char(i)) {
            return false;
        }
        i = i + 1;
    }
    true
}

/// The PCAP interface typed by hand (an index, a name, or a device string);
/// blank means auto-pick.
pub fn manual_interface(manual: String) -> (o: Option<String>)
    ensures
        match o {
            Some(t) => !blank(manual@) && t@ == manual@,
            None => blank(manual@),
        },
{
    if is_blank(manual.as_str()) {
        None
    } else {
        Some(manual)
    }
}

pub open spec fn auto_pick_label() -> Seq<char> {
    "Auto-pick (first up, non-loopback)"@
}

/// The PCAP combo's selected text: the chosen name, or the auto-pick label
/// when none (or an empty one) is chosen.
pub fn pcap_selected_text(current: &Option<String>) -> (s: String)
    ensures
        s@ == match current {
            Some(v) => if v@.len() > 0 {
                v@
            } else {
                auto_pick_label()
            },
            None => auto_pick_label(),
        },
{
    match current {
        Some(v) => if v.unicode_len() > 0 {
            string_copy(v)
        } else {
            String::from_str("Auto-pick (first up, non-loopback)")
        },
        None => String::from_str("Auto-pick (first up, non-loopback)"),
    }
}

/// The NFS section's checkbox: enabling starts from an empty shared folder
/// with the protocol version chosen automatically; disabling drops the
/// section.
pub fn nfs_enabled(has_nfs: bool) -> (nfs: Option<NfsConfig>)
    ensures
        has_nfs <==> nfs is Some,
        nfs matches Some(n) ==> n.shared_dir@.len() == 0 && n.version == NfsVersion::Auto,
{
    if has_nfs {
        Some(NfsConfig { shared_dir: String::new(), version: NfsVersion::Auto })
    } else {
        None
    }
}

/// The label of an NFS version choice.
pub fn nfs_version_label(v: NfsVersion) -> (s: &'static str)
    ensures
        s@ == match v {
            NfsVersion::Auto => "Auto"@,
            NfsVersion::V2 => "v2"@,
            NfsVersion::V3 => "v3"@,
        },
{
    match v {
        NfsVersion::Auto => "Auto",
        NfsVersion::V2 => "v2",
        NfsVersion::V3 => "v3",
    }
}

/// A new port forward row: TCP, ports unset, bound to localhost.
pub fn new_port_forward() -> (pf: PortForwardConfig)
    ensures
        pf == (PortForwardConfig {
            proto: ForwardProto::Tcp,
            host_port: 0,
            guest_port: 0,
            bind: ForwardBind::Localhost,
        }),
{
    PortForwardConfig {
        proto: ForwardProto::Tcp,
        host_port: 0,
        guest_port: 0,
        bind: ForwardBind::Localhost,
    }
}

/// Whether "Use embedded PROM" is offered: only when a custom PROM is set.
pub fn custom_prom(cfg: &MachineConfig) -> (r: bool)
    ensures
        r == (cfg.prom@.len() > 0),
{
    cfg.prom.unicode_len() > 0
}

/// The JIT tier the tier field shows (2 = full until one is set).
pub fn jit_tier_shown(jit: &JitEnv) -> (t: u8)
    ensures
        t == match jit.max_tier {
            Some(t) => t,
            None => 2u8,
        },
{
    match jit.max_tier {
        Some(t) => t,
        None => 2,
    }
}

pub fn net_mode_label(m: NetMode) -> (s: &'static str)
    ensures
        s@ == match m {
            NetMode::Nat => "NAT gateway"@,
            NetMode::Pcap => "PCAP (bridged)"@,
        },
{
    match m {
        NetMode::Nat => "NAT gateway",
        NetMode::Pcap => "PCAP (bridged)",
    }
}

pub fn proto_label(p: ForwardProto) -> (s: &'static str)
    ensures
        s@ == match p {
            ForwardProto::Tcp => "tcp"@,
            ForwardProto::Udp => "udp"@,
        },
{
    match p {
        ForwardProto::Tcp => "tcp",
        ForwardProto::Udp => "udp",
    }
}

pub fn bind_label(b: ForwardBind) -> (s: &'static str)
    ensures
        s@ == match b {
            ForwardBind::Localhost => "localhost"@,
            ForwardBind::Any => "any"@,
        },
{
    match b {
        ForwardBind::Localhost => "localhost",
        ForwardBind::Any => "any",
    }
}

pub fn vino_source_label(src: VinoSource) -> (s: &'static str)
    ensures
        s@ == match src {
            VinoSource::Camera => "camera"@,
            VinoSource::TestPattern => "test_pattern"@,
            VinoSource::Black => "black"@,
            VinoSource::Off => "off (disabled)"@,
        },
{
    match src {
        VinoSource::Camera => "camera",
        VinoSource::TestPattern => "test_pattern",
        VinoSource::Black => "black",
        VinoSource::Off => "off (disabled)",
    }
}

pub fn vino_standard_label(std: VinoStandard) -> (s: &'static str)
    ensures
        s@ == match std {
            VinoStandard::Ntsc => "ntsc"@,
            VinoStandard::Pal => "pal"@,
        },
{
    match std {
        VinoStandard::Ntsc => "ntsc",
        VinoStandard::Pal => "pal",
    }
}

/// The caption beside "Test Camera".
pub open spec fn camera_caption(index: u32, standard: VinoStandard) -> Seq<char> {
    "Preview host camera #"@ + decimal(index as nat) + " live ("@ + (match standard {
        VinoStandard::Ntsc => "NTSC"@,
        VinoStandard::Pal => "PAL"@,
    }) + ")."@
}

pub fn camera_preview_caption(index: u32, standard: VinoStandard) -> (s: String)
    ensures
        s@ == camera_caption(index, standard),
{
    let mut s = String::from_str("Preview host camera #");
    push_decimal(&mut s, index as u64);
    s.append(" live (");
    match standard {
        VinoStandard::Ntsc => s.append("NTSC"),
        VinoStandard::Pal => s.append("PAL"),
    }
    s.append(").");
    s
}

} // verus!
