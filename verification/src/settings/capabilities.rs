//! Stable capability keys, defaults, and environment override precedence.
use vstd::prelude::*;

use crate::text::{lower_of, str_eq, to_ascii_lowercase, trim, trim_of};

verus! {

pub const CAPABILITY_SETTINGS_NAMESPACE: &'static str = "yunxi-capabilities";

/// A capability that a user can switch.
#[derive(Clone, Copy, Debug, PartialEq, Eq, Structural, Hash, PartialOrd, Ord)]
pub enum CapabilitySetting {
    Context,
    Persona,
    Memory,
    Companion,
    Storage,
    Mailbox,
    Scheduler,
    Shell,
    Patch,
    Files,
    Mcp,
    Skills,
    Voice,
    Weixin,
    /// The coordinator of several agents. Nothing prescribes how its key is spelled; here it is
    /// `multi_agent`, like its switch.
    MultiAgent,
}

impl CapabilitySetting {
    /// The position of a capability in the list of all of them.
    pub open spec fn index(self) -> int {
        match self {
            CapabilitySetting::Context => 0,
            CapabilitySetting::Persona => 1,
            CapabilitySetting::Memory => 2,
            CapabilitySetting::Companion => 3,
            CapabilitySetting::Storage => 4,
            CapabilitySetting::Mailbox => 5,
            CapabilitySetting::Scheduler => 6,
            CapabilitySetting::Shell => 7,
            CapabilitySetting::Patch => 8,
            CapabilitySetting::Files => 9,
            CapabilitySetting::Mcp => 10,
            CapabilitySetting::Skills => 11,
            CapabilitySetting::Voice => 12,
            CapabilitySetting::Weixin => 13,
            CapabilitySetting::MultiAgent => 14,
        }
    }

    /// Every capability, once.
    pub fn all() -> (r: Vec<CapabilitySetting>)
        ensures
            r@.len() == 15,
            forall|setting: CapabilitySetting|
                0 <= #[trigger] setting.index() < r@.len() && r@[setting.index()] == setting,
            forall|i: int| 0 <= i < r@.len() ==> (#[trigger] r@[i]).index() == i,
    {
        let mut all: Vec<CapabilitySetting> = Vec::new();
        all.push(CapabilitySetting::Context);
        all.push(CapabilitySetting::Persona);
        all.push(CapabilitySetting::Memory);
        all.push(CapabilitySetting::Companion);
        all.push(CapabilitySetting::Storage);
        all.push(CapabilitySetting::Mailbox);
        all.push(CapabilitySetting::Scheduler);
        all.push(CapabilitySetting::Shell);
        all.push(CapabilitySetting::Patch);
        all.push(CapabilitySetting::Files);
        all.push(CapabilitySetting::Mcp);
        all.push(CapabilitySetting::Skills);
        all.push(CapabilitySetting::Voice);
        all.push(CapabilitySetting::Weixin);
        all.push(CapabilitySetting::MultiAgent);
        all
    }

    /// The key under which a capability is stored.
    pub open spec fn key(self) -> Seq<char> {
        match self {
            CapabilitySetting::Context => "context"@,
            CapabilitySetting::Persona => "persona"@,
            CapabilitySetting::Memory => "memory"@,
            CapabilitySetting::Companion => "companion"@,
            CapabilitySetting::Storage => "storage"@,
            CapabilitySetting::Mailbox => "mailbox"@,
            CapabilitySetting::Scheduler => "scheduler"@,
            CapabilitySetting::Shell => "shell"@,
            CapabilitySetting::Patch => "patch"@,
            CapabilitySetting::Files => "files"@,
            CapabilitySetting::Mcp => "mcp"@,
            CapabilitySetting::Skills => "skills"@,
            CapabilitySetting::Voice => "voice"@,
            CapabilitySetting::Weixin => "weixin"@,
            CapabilitySetting::MultiAgent => "multi_agent"@,
        }
    }

    pub fn as_str(self) -> (r: &'static str)
        ensures
            r@ == self.key(),
    {
        match self {
            CapabilitySetting::Context => "context",
            CapabilitySetting::Persona => "persona",
            CapabilitySetting::Memory => "memory",
            CapabilitySetting::Companion => "companion",
            CapabilitySetting::Storage => "storage",
            CapabilitySetting::Mailbox => "mailbox",
            CapabilitySetting::Scheduler => "scheduler",
            CapabilitySetting::Shell => "shell",
            CapabilitySetting::Patch => "patch",
            CapabilitySetting::Files => "files",
            CapabilitySetting::Mcp => "mcp",
            CapabilitySetting::Skills => "skills",
            CapabilitySetting::Voice => "voice",
            CapabilitySetting::Weixin => "weixin",
            CapabilitySetting::MultiAgent => "multi_agent",
        }
    }

    /// The capability with this key.
    pub fn parse(value: &str) -> (r: Option<Self>)
        ensures
            match r {
                Some(setting) => setting.key() == value@,
                None => forall|setting: CapabilitySetting| #[trigger] setting.key() != value@,
            },
    {
        let all = CapabilitySetting::all();
        let mut i: usize = 0;
        while i < all.len()
            invariant
                forall|setting: CapabilitySetting|
                    0 <= #[trigger] setting.index() < all@.len() && all@[setting.index()]
                        == setting,
                i <= all@.len(),
                forall|k: int| 0 <= k < i ==> (#[trigger] all@[k]).key() != value@,
            decreases all@.len() - i,
        {
            if str_eq(all[i].as_str(), value) {
                return Some(all[i]);
            }
            i += 1;
        }
        proof {
            assert forall|setting: CapabilitySetting| #[trigger] setting.key() != value@ by {
                let k = setting.index();
                assert(all@[k] == setting);
            }
        }
        None
    }

    /// The variable that overrides a capability, and the older one that counts where the first
    /// says nothing.
    pub open spec fn variables(self) -> (&'static str, Option<&'static str>) {
        match self {
            CapabilitySetting::Context => ("YUNXI_NEXT_CONTEXT_ENABLED", None),
            CapabilitySetting::Persona =>
                ("YUNXI_NEXT_PERSONA_ENABLED", Some("YUNXI_PERSONA_ENABLED")),
            CapabilitySetting::Memory =>
                ("YUNXI_NEXT_MEMORY_ENABLED", Some("YUNXI_MEMORY_ENABLED")),
            CapabilitySetting::Companion =>
                ("YUNXI_NEXT_COMPANION_ENABLED", Some("YUNXI_COMPANION_ENABLED")),
            CapabilitySetting::Storage => ("YUNXI_NEXT_STORAGE_ENABLED", None),
            CapabilitySetting::Mailbox => ("YUNXI_NEXT_MAILBOX_ENABLED", None),
            CapabilitySetting::Scheduler => ("YUNXI_NEXT_SCHEDULER_ENABLED", None),
            CapabilitySetting::Shell => ("YUNXI_NEXT_SHELL_ENABLED", None),
            CapabilitySetting::Patch => ("YUNXI_NEXT_PATCH_ENABLED", None),
            CapabilitySetting::Files => ("YUNXI_NEXT_FILES_ENABLED", None),
            CapabilitySetting::Mcp => ("YUNXI_NEXT_MCP_ENABLED", None),
            CapabilitySetting::Skills => ("YUNXI_NEXT_SKILLS_ENABLED", None),
            CapabilitySetting::Voice => ("YUNXI_NEXT_VOICE_ENABLED", None),
            CapabilitySetting::Weixin => ("YUNXI_NEXT_WEIXIN_ENABLED", None),
            CapabilitySetting::MultiAgent => ("YUNXI_NEXT_MULTI_AGENT_ENABLED", None),
        }
    }

    pub fn environment_names(self) -> (r: (&'static str, Option<&'static str>))
        ensures
            r == self.variables(),
    {
        match self {
            CapabilitySetting::Context => ("YUNXI_NEXT_CONTEXT_ENABLED", None),
            CapabilitySetting::Persona =>
                ("YUNXI_NEXT_PERSONA_ENABLED", Some("YUNXI_PERSONA_ENABLED")),
            CapabilitySetting::Memory =>
                ("YUNXI_NEXT_MEMORY_ENABLED", Some("YUNXI_MEMORY_ENABLED")),
            CapabilitySetting::Companion =>
                ("YUNXI_NEXT_COMPANION_ENABLED", Some("YUNXI_COMPANION_ENABLED")),
            CapabilitySetting::Storage => ("YUNXI_NEXT_STORAGE_ENABLED", None),
            CapabilitySetting::Mailbox => ("YUNXI_NEXT_MAILBOX_ENABLED", None),
            CapabilitySetting::Scheduler => ("YUNXI_NEXT_SCHEDULER_ENABLED", None),
            CapabilitySetting::Shell => ("YUNXI_NEXT_SHELL_ENABLED", None),
            CapabilitySetting::Patch => ("YUNXI_NEXT_PATCH_ENABLED", None),
            CapabilitySetting::Files => ("YUNXI_NEXT_FILES_ENABLED", None),
            CapabilitySetting::Mcp => ("YUNXI_NEXT_MCP_ENABLED", None),
            CapabilitySetting::Skills => ("YUNXI_NEXT_SKILLS_ENABLED", None),
            CapabilitySetting::Voice => ("YUNXI_NEXT_VOICE_ENABLED", None),
            CapabilitySetting::Weixin => ("YUNXI_NEXT_WEIXIN_ENABLED", None),
            CapabilitySetting::MultiAgent => ("YUNXI_NEXT_MULTI_AGENT_ENABLED", None),
        }
    }
}

/// No two capabilities share a key, so a key names at most one of them.
pub proof fn lemma_keys_are_distinct(a: CapabilitySetting, b: CapabilitySetting)
    ensures
        a.key() == b.key() ==> a == b,
{
    reveal_strlit("context");
    reveal_strlit("persona");
    reveal_strlit("memory");
    reveal_strlit("companion");
    reveal_strlit("storage");
    reveal_strlit("mailbox");
    reveal_strlit("scheduler");
    reveal_strlit("shell");
    reveal_strlit("patch");
    reveal_strlit("files");
    reveal_strlit("mcp");
    reveal_strlit("skills");
    reveal_strlit("voice");
    reveal_strlit("weixin");
    reveal_strlit("multi_agent");
    let x = a.key();
    let y = b.key();
    if x == y {
        assert(x.len() == y.len());
        assert(x[0] == y[0] && x[1] == y[1] && x[2] == y[2]);
        if x.len() > 3 {
            assert(x[3] == y[3]);
        }
    }
}

/// What the user has chosen; a capability without a choice keeps its default.
#[derive(Clone, Copy, Debug, PartialEq, Eq, Structural)]
pub struct CapabilityOverrides {
    context: Option<bool>,
    persona: Option<bool>,
    memory: Option<bool>,
    companion: Option<bool>,
    storage: Option<bool>,
    mailbox: Option<bool>,
    scheduler: Option<bool>,
    shell: Option<bool>,
    patch: Option<bool>,
    files: Option<bool>,
    mcp: Option<bool>,
    skills: Option<bool>,
    voice: Option<bool>,
    weixin: Option<bool>,
    multi_agent: Option<bool>,
}

impl CapabilityOverrides {
    /// The choice for a capability.
    pub closed spec fn at(self, setting: CapabilitySetting) -> Option<bool> {
        match setting {
            CapabilitySetting::Context => self.context,
            CapabilitySetting::Persona => self.persona,
            CapabilitySetting::Memory => self.memory,
            CapabilitySetting::Companion => self.companion,
            CapabilitySetting::Storage => self.storage,
            CapabilitySetting::Mailbox => self.mailbox,
            CapabilitySetting::Scheduler => self.scheduler,
            CapabilitySetting::Shell => self.shell,
            CapabilitySetting::Patch => self.patch,
            CapabilitySetting::Files => self.files,
            CapabilitySetting::Mcp => self.mcp,
            CapabilitySetting::Skills => self.skills,
            CapabilitySetting::Voice => self.voice,
            CapabilitySetting::Weixin => self.weixin,
            CapabilitySetting::MultiAgent => self.multi_agent,
        }
    }

    /// Two sets of choices that agree on every capability are the same.
    pub proof fn lemma_same_choices(self, other: CapabilityOverrides)
        requires
            forall|setting: CapabilitySetting| #[trigger] self.at(setting) == other.at(setting),
        ensures
            self == other,
    {
        assert(self.at(CapabilitySetting::Context) == other.at(CapabilitySetting::Context));
        assert(self.at(CapabilitySetting::Persona) == other.at(CapabilitySetting::Persona));
        assert(self.at(CapabilitySetting::Memory) == other.at(CapabilitySetting::Memory));
        assert(self.at(CapabilitySetting::Companion) == other.at(CapabilitySetting::Companion));
        assert(self.at(CapabilitySetting::Storage) == other.at(CapabilitySetting::Storage));
        assert(self.at(CapabilitySetting::Mailbox) == other.at(CapabilitySetting::Mailbox));
        assert(self.at(CapabilitySetting::Scheduler) == other.at(CapabilitySetting::Scheduler));
        assert(self.at(CapabilitySetting::Shell) == other.at(CapabilitySetting::Shell));
        assert(self.at(CapabilitySetting::Patch) == other.at(CapabilitySetting::Patch));
        assert(self.at(CapabilitySetting::Files) == other.at(CapabilitySetting::Files));
        assert(self.at(CapabilitySetting::Mcp) == other.at(CapabilitySetting::Mcp));
        assert(self.at(CapabilitySetting::Skills) == other.at(CapabilitySetting::Skills));
        assert(self.at(CapabilitySetting::Voice) == other.at(CapabilitySetting::Voice));
        assert(self.at(CapabilitySetting::Weixin) == other.at(CapabilitySetting::Weixin));
        assert(self.at(CapabilitySetting::MultiAgent) == other.at(CapabilitySetting::MultiAgent));
    }

    pub fn get(&self, setting: CapabilitySetting) -> (r: Option<bool>)
        ensures
            r == self.at(setting),
    {
        match setting {
            CapabilitySetting::Context => self.context,
            CapabilitySetting::Persona => self.persona,
            CapabilitySetting::Memory => self.memory,
            CapabilitySetting::Companion => self.companion,
            CapabilitySetting::Storage => self.storage,
            CapabilitySetting::Mailbox => self.mailbox,
            CapabilitySetting::Scheduler => self.scheduler,
            CapabilitySetting::Shell => self.shell,
            CapabilitySetting::Patch => self.patch,
            CapabilitySetting::Files => self.files,
            CapabilitySetting::Mcp => self.mcp,
            CapabilitySetting::Skills => self.skills,
            CapabilitySetting::Voice => self.voice,
            CapabilitySetting::Weixin => self.weixin,
            CapabilitySetting::MultiAgent => self.multi_agent,
        }
    }

    fn put(&mut self, setting: CapabilitySetting, value: Option<bool>)
        ensures
            forall|other: CapabilitySetting| #[trigger]
                final(self).at(other) == if other == setting {
                    value
                } else {
                    old(self).at(other)
                },
    {
        match setting {
            CapabilitySetting::Context => self.context = value,
            CapabilitySetting::Persona => self.persona = value,
            CapabilitySetting::Memory => self.memory = value,
            CapabilitySetting::Companion => self.companion = value,
            CapabilitySetting::Storage => self.storage = value,
            CapabilitySetting::Mailbox => self.mailbox = value,
            CapabilitySetting::Scheduler => self.scheduler = value,
            CapabilitySetting::Shell => self.shell = value,
            CapabilitySetting::Patch => self.patch = value,
            CapabilitySetting::Files => self.files = value,
            CapabilitySetting::Mcp => self.mcp = value,
            CapabilitySetting::Skills => self.skills = value,
            CapabilitySetting::Voice => self.voice = value,
            CapabilitySetting::Weixin => self.weixin = value,
            CapabilitySetting::MultiAgent => self.multi_agent = value,
        }
    }

    pub fn set(&mut self, setting: CapabilitySetting, value: bool)
        ensures
            forall|other: CapabilitySetting| #[trigger]
                final(self).at(other) == if other == setting {
                    Some(value)
                } else {
                    old(self).at(other)
                },
    {
        self.put(setting, Some(value));
    }

    pub fn unset(&mut self, setting: CapabilitySetting)
        ensures
            forall|other: CapabilitySetting| #[trigger]
                final(self).at(other) == if other == setting {
                    None::<bool>
                } else {
                    old(self).at(other)
                },
    {
        self.put(setting, None);
    }

    /// Takes over every choice of `patch`.
    pub fn merge(&mut self, patch: &Self)
        ensures
            forall|setting: CapabilitySetting| #[trigger]
                final(self).at(setting) == merged(old(self).at(setting), patch.at(setting)),
    {
        let all = CapabilitySetting::all();
        let mut i: usize = 0;
        while i < all.len()
            invariant
                forall|setting: CapabilitySetting|
                    0 <= #[trigger] setting.index() < all@.len() && all@[setting.index()]
                        == setting,
                forall|k: int| 0 <= k < all@.len() ==> (#[trigger] all@[k]).index() == k,
                i <= all@.len(),
                forall|setting: CapabilitySetting| #[trigger]
                    self.at(setting) == if setting.index() < i {
                        merged(old(self).at(setting), patch.at(setting))
                    } else {
                        old(self).at(setting)
                    },
            decreases all@.len() - i,
        {
            let setting = all[i];
            let ghost before = *self;
            if let Some(value) = patch.get(setting) {
                self.set(setting, value);
            }
            proof {
                assert forall|other: CapabilitySetting| #[trigger]
                    self.at(other) == if other.index() < i + 1 {
                        merged(old(self).at(other), patch.at(other))
                    } else {
                        old(self).at(other)
                    } by {
                    assert(before.at(other) == before.at(other));
                    if other.index() == i {
                        assert(all@[other.index()] == other);
                    } else {
                        assert(all@[other.index()] == other);
                        assert(other != setting);
                    }
                }
            }
            i += 1;
        }
        proof {
            assert forall|setting: CapabilitySetting| #[trigger]
                self.at(setting) == merged(old(self).at(setting), patch.at(setting)) by {
                assert(setting.index() < all@.len());
            }
        }
    }
}

impl Default for CapabilityOverrides {
    fn default() -> (r: Self)
        ensures
            forall|setting: CapabilitySetting| #[trigger] r.at(setting) is None,
    {
        CapabilityOverrides {
            context: None,
            persona: None,
            memory: None,
            companion: None,
            storage: None,
            mailbox: None,
            scheduler: None,
            shell: None,
            patch: None,
            files: None,
            mcp: None,
            skills: None,
            voice: None,
            weixin: None,
            multi_agent: None,
        }
    }
}

/// A choice of the patch wins over an earlier one.
pub open spec fn merged(earlier: Option<bool>, patch: Option<bool>) -> Option<bool> {
    if patch is Some {
        patch
    } else {
        earlier
    }
}

/// Which capabilities are on.
#[derive(Clone, Copy, Debug, PartialEq, Eq, Structural)]
pub struct CapabilitySwitches {
    pub context: bool,
    pub persona: bool,
    pub memory: bool,
    pub companion: bool,
    pub storage: bool,
    pub mailbox: bool,
    pub scheduler: bool,
    pub shell: bool,
    pub patch: bool,
    pub files: bool,
    pub mcp: bool,
    pub skills: bool,
    pub voice: bool,
    pub weixin: bool,
    pub multi_agent: bool,
}

/// Whether a capability is on where the user has chosen nothing: the core is, the mailbox and
/// the scheduler follow the companion, and nothing else is.
pub open spec fn default_switch(setting: CapabilitySetting, companion: bool) -> bool {
    match setting {
        CapabilitySetting::Context => true,
        CapabilitySetting::Persona => true,
        CapabilitySetting::Storage => true,
        CapabilitySetting::Mailbox => companion,
        CapabilitySetting::Scheduler => companion,
        _ => false,
    }
}

/// A choice where there is one, and the default where there is none.
pub open spec fn chosen(choice: Option<bool>, default: bool) -> bool {
    match choice {
        Some(value) => value,
        None => default,
    }
}

/// Whether a capability is on, given the choices.
pub open spec fn switch_of(overrides: CapabilityOverrides, setting: CapabilitySetting) -> bool {
    let companion = chosen(overrides.at(CapabilitySetting::Companion), false);
    chosen(overrides.at(setting), default_switch(setting, companion))
}

fn choose_or(choice: Option<bool>, default: bool) -> (r: bool)
    ensures
        r == chosen(choice, default),
{
    match choice {
        Some(value) => value,
        None => default,
    }
}

impl CapabilitySwitches {
    /// Whether a capability is on.
    pub open spec fn at(self, setting: CapabilitySetting) -> bool {
        match setting {
            CapabilitySetting::Context => self.context,
            CapabilitySetting::Persona => self.persona,
            CapabilitySetting::Memory => self.memory,
            CapabilitySetting::Companion => self.companion,
            CapabilitySetting::Storage => self.storage,
            CapabilitySetting::Mailbox => self.mailbox,
            CapabilitySetting::Scheduler => self.scheduler,
            CapabilitySetting::Shell => self.shell,
            CapabilitySetting::Patch => self.patch,
            CapabilitySetting::Files => self.files,
            CapabilitySetting::Mcp => self.mcp,
            CapabilitySetting::Skills => self.skills,
            CapabilitySetting::Voice => self.voice,
            CapabilitySetting::Weixin => self.weixin,
            CapabilitySetting::MultiAgent => self.multi_agent,
        }
    }

    /// The switches that the choices and the defaults make.
    pub fn from_overrides(overrides: &CapabilityOverrides) -> (r: Self)
        ensures
            forall|setting: CapabilitySetting| #[trigger]
                r.at(setting) == switch_of(*overrides, setting),
    {
        let companion = choose_or(overrides.get(CapabilitySetting::Companion), false);
        CapabilitySwitches {
            context: choose_or(overrides.get(CapabilitySetting::Context), true),
            persona: choose_or(overrides.get(CapabilitySetting::Persona), true),
            memory: choose_or(overrides.get(CapabilitySetting::Memory), false),
            companion,
            storage: choose_or(overrides.get(CapabilitySetting::Storage), true),
            mailbox: choose_or(overrides.get(CapabilitySetting::Mailbox), companion),
            scheduler: choose_or(overrides.get(CapabilitySetting::Scheduler), companion),
            shell: choose_or(overrides.get(CapabilitySetting::Shell), false),
            patch: choose_or(overrides.get(CapabilitySetting::Patch), false),
            files: choose_or(overrides.get(CapabilitySetting::Files), false),
            mcp: choose_or(overrides.get(CapabilitySetting::Mcp), false),
            skills: choose_or(overrides.get(CapabilitySetting::Skills), false),
            voice: choose_or(overrides.get(CapabilitySetting::Voice), false),
            weixin: choose_or(overrides.get(CapabilitySetting::Weixin), false),
            multi_agent: choose_or(overrides.get(CapabilitySetting::MultiAgent), false),
        }
    }

    pub fn get(&self, setting: CapabilitySetting) -> (r: bool)
        ensures
            r == self.at(setting),
    {
        match setting {
            CapabilitySetting::Context => self.context,
            CapabilitySetting::Persona => self.persona,
            CapabilitySetting::Memory => self.memory,
            CapabilitySetting::Companion => self.companion,
            CapabilitySetting::Storage => self.storage,
            CapabilitySetting::Mailbox => self.mailbox,
            CapabilitySetting::Scheduler => self.scheduler,
            CapabilitySetting::Shell => self.shell,
            CapabilitySetting::Patch => self.patch,
            CapabilitySetting::Files => self.files,
            CapabilitySetting::Mcp => self.mcp,
            CapabilitySetting::Skills => self.skills,
            CapabilitySetting::Voice => self.voice,
            CapabilitySetting::Weixin => self.weixin,
            CapabilitySetting::MultiAgent => self.multi_agent,
        }
    }

    /// The switches with each choice in place of what was there before.
    fn overridden(self, choices: &CapabilityOverrides) -> (r: Self)
        ensures
            r.overrides(self, *choices),
    {
        CapabilitySwitches {
            context: choose_or(choices.get(CapabilitySetting::Context), self.context),
            persona: choose_or(choices.get(CapabilitySetting::Persona), self.persona),
            memory: choose_or(choices.get(CapabilitySetting::Memory), self.memory),
            companion: choose_or(choices.get(CapabilitySetting::Companion), self.companion),
            storage: choose_or(choices.get(CapabilitySetting::Storage), self.storage),
            mailbox: choose_or(choices.get(CapabilitySetting::Mailbox), self.mailbox),
            scheduler: choose_or(choices.get(CapabilitySetting::Scheduler), self.scheduler),
            shell: choose_or(choices.get(CapabilitySetting::Shell), self.shell),
            patch: choose_or(choices.get(CapabilitySetting::Patch), self.patch),
            files: choose_or(choices.get(CapabilitySetting::Files), self.files),
            mcp: choose_or(choices.get(CapabilitySetting::Mcp), self.mcp),
            skills: choose_or(choices.get(CapabilitySetting::Skills), self.skills),
            voice: choose_or(choices.get(CapabilitySetting::Voice), self.voice),
            weixin: choose_or(choices.get(CapabilitySetting::Weixin), self.weixin),
            multi_agent: choose_or(choices.get(CapabilitySetting::MultiAgent), self.multi_agent),
        }
    }

    /// Each switch is what was chosen for it, or what it was before.
    spec fn overrides(self, before: Self, choices: CapabilityOverrides) -> bool {
        &&& self.context == chosen(choices.at(CapabilitySetting::Context), before.context)
        &&& self.persona == chosen(choices.at(CapabilitySetting::Persona), before.persona)
        &&& self.memory == chosen(choices.at(CapabilitySetting::Memory), before.memory)
        &&& self.companion == chosen(choices.at(CapabilitySetting::Companion), before.companion)
        &&& self.storage == chosen(choices.at(CapabilitySetting::Storage), before.storage)
        &&& self.mailbox == chosen(choices.at(CapabilitySetting::Mailbox), before.mailbox)
        &&& self.scheduler == chosen(choices.at(CapabilitySetting::Scheduler), before.scheduler)
        &&& self.shell == chosen(choices.at(CapabilitySetting::Shell), before.shell)
        &&& self.patch == chosen(choices.at(CapabilitySetting::Patch), before.patch)
        &&& self.files == chosen(choices.at(CapabilitySetting::Files), before.files)
        &&& self.mcp == chosen(choices.at(CapabilitySetting::Mcp), before.mcp)
        &&& self.skills == chosen(choices.at(CapabilitySetting::Skills), before.skills)
        &&& self.voice == chosen(choices.at(CapabilitySetting::Voice), before.voice)
        &&& self.weixin == chosen(choices.at(CapabilitySetting::Weixin), before.weixin)
        &&& self.multi_agent == chosen(
            choices.at(CapabilitySetting::MultiAgent),
            before.multi_agent,
        )
    }

    proof fn lemma_overrides(
        self,
        before: Self,
        choices: CapabilityOverrides,
        setting: CapabilitySetting,
    )
        requires
            self.overrides(before, choices),
        ensures
            self.at(setting) == chosen(choices.at(setting), before.at(setting)),
    {
    }

    /// The switches once the environment has been asked about each capability. A variable that
    /// does not hold a truth value says nothing.
    pub fn with_environment<F: Fn(&str) -> Option<String>>(self, read: F) -> (r: Self)
        requires
            forall|name: &str| #[trigger] call_requires(read, (name,)),
        ensures
            forall|setting: CapabilitySetting|
                answered(read, setting, self.at(setting), #[trigger] r.at(setting)),
    {
        let mut choices = CapabilityOverrides::default();
        let all = CapabilitySetting::all();
        let mut i: usize = 0;
        while i < all.len()
            invariant
                forall|name: &str| #[trigger] call_requires(read, (name,)),
                forall|setting: CapabilitySetting|
                    0 <= #[trigger] setting.index() < all@.len() && all@[setting.index()]
                        == setting,
                forall|k: int| 0 <= k < all@.len() ==> (#[trigger] all@[k]).index() == k,
                i <= all@.len(),
                forall|setting: CapabilitySetting| #[trigger]
                    setting.index() < i ==> said(read, setting, choices.at(setting)),
                forall|setting: CapabilitySetting| #[trigger]
                    setting.index() >= i ==> choices.at(setting) is None,
            decreases all@.len() - i,
        {
            let setting = all[i];
            let ghost before = choices;
            let (primary, legacy) = setting.environment_names();
            let first = read(primary);
            let mut value = truth_value(&first);
            let ghost mut second: Option<String> = None;
            if value.is_none() {
                if let Some(name) = legacy {
                    let older = read(name);
                    value = truth_value(&older);
                    proof {
                        second = older;
                    }
                }
            }
            if let Some(value) = value {
                choices.set(setting, value);
            }
            proof {
                assert(may_answer(read, primary, first));
                if truth_of(first) is None && legacy is Some {
                    assert(may_answer(read, legacy->0, second));
                }
                assert(environment_says(first, second) == value);
                assert(before.at(setting) is None) by {
                    assert(setting.index() >= i);
                }
                assert(said(read, setting, choices.at(setting)));
                assert forall|other: CapabilitySetting| #[trigger] other.index() < i + 1 implies said(
                    read,
                    other,
                    choices.at(other),
                ) by {
                    assert(all@[other.index()] == other);
                    if other.index() < i {
                        assert(other != setting);
                        assert(choices.at(other) == before.at(other));
                    }
                }
                assert forall|other: CapabilitySetting| #[trigger] other.index() >= i + 1 implies choices.at(
                    other,
                ) is None by {
                    assert(other != setting);
                    assert(choices.at(other) == before.at(other));
                }
            }
            i += 1;
        }
        let r = self.overridden(&choices);
        proof {
            assert forall|setting: CapabilitySetting|
                answered(read, setting, self.at(setting), #[trigger] r.at(setting)) by {
                assert(setting.index() < all@.len());
                assert(said(read, setting, choices.at(setting)));
                r.lemma_overrides(self, choices, setting);
            }
        }
        r
    }
}

impl Default for CapabilitySwitches {
    fn default() -> (r: Self)
        ensures
            forall|setting: CapabilitySetting| #[trigger]
                r.at(setting) == default_switch(setting, false),
    {
        CapabilitySwitches::from_overrides(&CapabilityOverrides::default())
    }
}

/// The environment may give this answer for a variable.
pub open spec fn may_answer<F: Fn(&str) -> Option<String>>(
    read: F,
    name: &str,
    answer: Option<String>,
) -> bool {
    call_ensures(read, (name,), answer)
}

/// The truth value that a text spells.
pub open spec fn truth_of_text(text: Seq<char>) -> Option<bool> {
    let word = lower_of(trim_of(text));
    if word == "1"@ || word == "true"@ || word == "yes"@ || word == "on"@ {
        Some(true)
    } else if word == "0"@ || word == "false"@ || word == "no"@ || word == "off"@ {
        Some(false)
    } else {
        None
    }
}

/// The truth value that a variable holds.
pub open spec fn truth_of(value: Option<String>) -> Option<bool> {
    match value {
        Some(text) => truth_of_text(text@),
        None => None,
    }
}

/// What a variable and the older one in its place say together.
pub open spec fn environment_says(primary: Option<String>, legacy: Option<String>) -> Option<bool> {
    if truth_of(primary) is Some {
        truth_of(primary)
    } else {
        truth_of(legacy)
    }
}

/// The environment may say this about a capability: its variable counts first, then the older
/// one.
pub open spec fn said<F: Fn(&str) -> Option<String>>(
    read: F,
    setting: CapabilitySetting,
    choice: Option<bool>,
) -> bool {
    exists|primary: Option<String>, legacy: Option<String>|
        {
            &&& #[trigger] may_answer(read, setting.variables().0, primary)
            &&& truth_of(primary) is None ==> match setting.variables().1 {
                Some(name) => may_answer(read, name, legacy),
                None => legacy is None,
            }
            &&& choice == #[trigger] environment_says(primary, legacy)
        }
}

/// A switch follows from what the environment said, and stays as it was where it said nothing.
pub open spec fn answered<F: Fn(&str) -> Option<String>>(
    read: F,
    setting: CapabilitySetting,
    before: bool,
    after: bool,
) -> bool {
    exists|choice: Option<bool>|
        #[trigger] said(read, setting, choice) && after == chosen(choice, before)
}

/// The truth value that a variable holds.
pub fn truth_value(value: &Option<String>) -> (r: Option<bool>)
    ensures
        r == truth_of(*value),
{
    match value {
        None => None,
        Some(text) => {
            let word = to_ascii_lowercase(trim(text.as_str()));
            let word = word.as_str();
            if str_eq(word, "1") || str_eq(word, "true") || str_eq(word, "yes") || str_eq(
                word,
                "on",
            ) {
                Some(true)
            } else if str_eq(word, "0") || str_eq(word, "false") || str_eq(word, "no") || str_eq(
                word,
                "off",
            ) {
                Some(false)
            } else {
                None
            }
        },
    }
}

/// A switch, given what its variable and the older one hold.
pub fn switch_with(before: bool, primary: &Option<String>, legacy: &Option<String>) -> (r: bool)
    ensures
        r == chosen(environment_says(*primary, *legacy), before),
{
    match truth_value(primary) {
        Some(value) => value,
        None => choose_or(truth_value(legacy), before),
    }
}

/// Merging twice is merging once, and merging nothing changes nothing.
pub proof fn lemma_merge_is_idempotent(earlier: Option<bool>, patch: Option<bool>)
    ensures
        merged(merged(earlier, patch), patch) == merged(earlier, patch),
        merged(earlier, None) == earlier,
{
}

/// An explicit choice is what counts, whatever the default and whatever the companion does.
pub proof fn lemma_explicit_choice_wins(
    overrides: CapabilityOverrides,
    setting: CapabilitySetting,
    value: bool,
)
    requires
        overrides.at(setting) == Some(value),
    ensures
        switch_of(overrides, setting) == value,
{
}

/// The capability runs something, reads files for the model, talks to somebody, or keeps what
/// was said.
pub open spec fn reaches_outside(setting: CapabilitySetting) -> bool {
    ||| setting is Memory
    ||| setting is Companion
    ||| setting is Shell
    ||| setting is Patch
    ||| setting is Files
    ||| setting is Mcp
    ||| setting is Skills
    ||| setting is Voice
    ||| setting is Weixin
    ||| setting is MultiAgent
}

/// Without a choice every capability that reaches outside is off.
pub proof fn lemma_external_capabilities_are_off_by_default(
    overrides: CapabilityOverrides,
    setting: CapabilitySetting,
)
    requires
        overrides.at(setting) is None,
        reaches_outside(setting),
    ensures
        !switch_of(overrides, setting),
{
}

} // verus!
