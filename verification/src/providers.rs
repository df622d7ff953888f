//! Providers: what installs and starts a game server. A provider names the
//! commands of its four stages (pre-hook, install, post-hook, start); the
//! commands are described here and run by the caller.
use vstd::prelude::*;
use crate::keyed::{
    has_key,
    first_key_at,
    lookup,
    lemma_key_index_at,
    lemma_key_index_none,
    lemma_lookup_push,
};
use crate::text::{str_eq, owned};
use crate::databasespec::opt_view;

verus! {

/// The operating system the commands are meant for.
#[derive(Debug, Clone, Copy, PartialEq, Eq, Structural)]
pub enum TargetOs {
    Linux,
    Windows,
    Other,
}

/// A command to run: program, arguments and working directory.
#[derive(Debug)]
pub struct CommandSpec {
    pub program: String,
    pub args: Vec<String>,
    pub current_dir: Option<String>,
}

pub struct CommandView {
    pub program: Seq<char>,
    pub args: Seq<Seq<char>>,
    pub current_dir: Option<Seq<char>>,
}

impl View for CommandSpec {
    type V = CommandView;

    open spec fn view(&self) -> CommandView {
        CommandView {
            program: self.program@,
            args: self.args@.map_values(|a: String| a@),
            current_dir: opt_view(self.current_dir),
        }
    }
}

/// The view of an optional command.
pub open spec fn opt_command(c: Option<CommandSpec>) -> Option<CommandView> {
    match c {
        Some(x) => Some(x@),
        None => None,
    }
}

/// A shell command line run by the system shell: `sh -c` on Linux and other
/// systems, `powershell -Command` on Windows.
pub open spec fn shell_command(os: TargetOs, line: Seq<char>) -> CommandView {
    if os == TargetOs::Windows {
        CommandView {
            program: "powershell"@,
            args: seq!["-Command"@, line],
            current_dir: None,
        }
    } else {
        CommandView { program: "sh"@, args: seq!["-c"@, line], current_dir: None }
    }
}

fn shell(os: TargetOs, line: String) -> (r: CommandSpec)
    ensures
        r@ == shell_command(os, line@),
{
    let mut args: Vec<String> = Vec::new();
    if os == TargetOs::Windows {
        args.push(owned("-Command"));
        args.push(line);
        let r = CommandSpec { program: owned("powershell"), args, current_dir: None };
        assert(r@.args =~= shell_command(os, line@).args);
        r
    } else {
        args.push(owned("-c"));
        args.push(line);
        let r = CommandSpec { program: owned("sh"), args, current_dir: None };
        assert(r@.args =~= shell_command(os, line@).args);
        r
    }
}

/// The stages of a provider.
pub trait Provider {
    fn pre_hook(&self, os: TargetOs) -> Option<CommandSpec>;

    fn install(&self, os: TargetOs) -> Option<CommandSpec>;

    fn post_hook(&self, os: TargetOs) -> Option<CommandSpec>;

    fn start(&self, os: TargetOs) -> Option<CommandSpec>;
}

/// The commands of a custom provider's stages, as read from its
/// `provider.json`.
#[derive(Debug)]
pub struct ProviderConfig {
    pub pre_hook: Option<String>,
    pub install: Option<String>,
    pub post_hook: Option<String>,
    pub start: Option<String>,
}

/// A provider by name, with its configuration entries (each key at most
/// once).
#[derive(Debug)]
pub struct ProviderType {
    pub name: String,
    pub config: Vec<(String, String)>,
}

pub struct ProviderTypeView {
    pub name: Seq<char>,
    pub config: Seq<(Seq<char>, Seq<char>)>,
}

/// The views of configuration entries.
pub open spec fn config_view(v: Seq<(String, String)>) -> Seq<(Seq<char>, Seq<char>)> {
    v.map_values(|e: (String, String)| (e.0@, e.1@))
}

impl View for ProviderType {
    type V = ProviderTypeView;

    open spec fn view(&self) -> ProviderTypeView {
        ProviderTypeView { name: self.name@, config: config_view(self.config@) }
    }
}

/// Configuration entries are found by their key.
pub open spec fn entry_key() -> spec_fn((Seq<char>, Seq<char>)) -> Seq<char> {
    |e: (Seq<char>, Seq<char>)| e.0
}

/// No key occurs twice.
pub open spec fn keys_unique(cfg: Seq<(Seq<char>, Seq<char>)>) -> bool {
    forall|i: int, j: int| 0 <= i < j < cfg.len() ==> cfg[i].0 != cfg[j].0
}

/// The value stored under `key`.
pub open spec fn config_get(cfg: Seq<(Seq<char>, Seq<char>)>, key: Seq<char>) -> Option<
    Seq<char>,
> {
    match lookup(cfg, entry_key(), key) {
        Some(e) => Some(e.1),
        None => None,
    }
}

/// The entries after storing `value` under `key`: an existing entry of
/// that key takes the value, else the entry goes last.
pub open spec fn config_insert(
    cfg: Seq<(Seq<char>, Seq<char>)>,
    key: Seq<char>,
    value: Seq<char>,
) -> Seq<(Seq<char>, Seq<char>)> {
    match crate::keyed::key_index(cfg, entry_key(), key) {
        Some(i) => cfg.update(i, (key, value)),
        None => cfg.push((key, value)),
    }
}

impl Clone for ProviderType {
    fn clone(&self) -> (r: Self)
        ensures
            r@ == self@,
    {
        let mut config: Vec<(String, String)> = Vec::new();
        let mut i: usize = 0;
        while i < self.config.len()
            invariant
                i <= self.config@.len(),
                config@.len() == i,
                forall|j: int|
                    0 <= j < i ==> config@[j].0@ == self.config@[j].0@ && config@[j].1@
                        == self.config@[j].1@,
            decreases self.config@.len() - i,
        {
            config.push((self.config[i].0.clone(), self.config[i].1.clone()));
            i = i + 1;
        }
        assert(config_view(config@) =~= config_view(self.config@));
        ProviderType { name: self.name.clone(), config }
    }
}

impl ProviderType {
    /// Whether no configuration key occurs twice.
    pub open spec fn wf(&self) -> bool {
        keys_unique(self@.config)
    }

    /// A provider of that name without configuration.
    pub fn new(name: String) -> (r: ProviderType)
        ensures
            r@.name == name@,
            r@.config == Seq::<(Seq<char>, Seq<char>)>::empty(),
            r.wf(),
    {
        let r = ProviderType { name, config: Vec::new() };
        assert(r@.config =~= Seq::<(Seq<char>, Seq<char>)>::empty());
        r
    }

    fn entry_position(&self, key: &str) -> (r: Option<usize>)
        ensures
            match r {
                Some(i) => first_key_at(self@.config, entry_key(), key@, i as int),
                None => !has_key(self@.config, entry_key(), key@),
            },
    {
        let mut i: usize = 0;
        while i < self.config.len()
            invariant
                i <= self.config@.len(),
                forall|j: int| 0 <= j < i ==> self.config@[j].0@ != key@,
            decreases self.config@.len() - i,
        {
            if str_eq(self.config[i].0.as_str(), key) {
                return Some(i);
            }
            i = i + 1;
        }
        None
    }

    /// The provider with `value` stored under `key`.
    pub fn with_config(self, key: String, value: String) -> (r: ProviderType)
        requires
            self.wf(),
        ensures
            r@.name == self@.name,
            r@.config == config_insert(self@.config, key@, value@),
            r.wf(),
    {
        let ghost old_cfg = self@.config;
        let mut this = self;
        match this.entry_position(key.as_str()) {
            Some(i) => {
                proof {
                    lemma_key_index_at(old_cfg, entry_key(), key@, i as int);
                }
                let ghost e = (key@, value@);
                this.config.set(i, (key, value));
                assert(this@.config =~= old_cfg.update(i as int, e));
            },
            None => {
                proof {
                    lemma_key_index_none(old_cfg, entry_key(), key@);
                }
                let ghost e = (key@, value@);
                this.config.push((key, value));
                assert(this@.config =~= old_cfg.push(e));
            },
        }
        this
    }

    /// The value stored under `key`.
    pub fn get_config(&self, key: &str) -> (r: Option<&String>)
        ensures
            match r {
                Some(v) => config_get(self@.config, key@) == Some(v@),
                None => config_get(self@.config, key@) == None::<Seq<char>>,
            },
    {
        match self.entry_position(key) {
            Some(i) => {
                proof {
                    lemma_key_index_at(self@.config, entry_key(), key@, i as int);
                }
                Some(&self.config[i].1)
            },
            None => {
                proof {
                    lemma_key_index_none(self@.config, entry_key(), key@);
                }
                None
            },
        }
    }

    /// The custom provider with the commands of `custom`, stored under
    /// `pre_hook`, `install`, `post_hook` and `start` in that order.
    pub fn from_custom(custom: Custom) -> (r: ProviderType)
        ensures
            r@.name == "custom"@,
            r@.config == custom_config(custom@),
            r.wf(),
    {
        proof {
            reveal_strlit("pre_hook");
            reveal_strlit("install");
            reveal_strlit("post_hook");
            reveal_strlit("start");
        }
        let mut provider = ProviderType::new(owned("custom"));
        let ghost c = custom@;
        proof {
            lemma_stage_keys_distinct();
        }
        proof {
            lemma_key_index_none(provider@.config, entry_key(), "pre_hook"@);
        }
        if let Some(cmd) = custom.pre_hook_cmd {
            provider = provider.with_config(owned("pre_hook"), cmd);
        }
        assert(provider@.config =~= opt_entry("pre_hook"@, c.pre_hook_cmd));
        let ghost c1 = provider@.config;
        if let Some(cmd) = custom.install_cmd {
            proof {
                assert(!has_key(c1, entry_key(), "install"@));
                lemma_key_index_none(c1, entry_key(), "install"@);
            }
            provider = provider.with_config(owned("install"), cmd);
        }
        assert(provider@.config =~= c1 + opt_entry("install"@, c.install_cmd));
        let ghost c2 = provider@.config;
        if let Some(cmd) = custom.post_hook_cmd {
            proof {
                assert(!has_key(c2, entry_key(), "post_hook"@));
                lemma_key_index_none(c2, entry_key(), "post_hook"@);
            }
            provider = provider.with_config(owned("post_hook"), cmd);
        }
        assert(provider@.config =~= c2 + opt_entry("post_hook"@, c.post_hook_cmd));
        let ghost c3 = provider@.config;
        if let Some(cmd) = custom.start_cmd {
            proof {
                assert(!has_key(c3, entry_key(), "start"@));
                lemma_key_index_none(c3, entry_key(), "start"@);
            }
            provider = provider.with_config(owned("start"), cmd);
        }
        assert(provider@.config =~= c3 + opt_entry("start"@, c.start_cmd));
        provider
    }

    /// The Minecraft provider.
    pub fn from_minecraft(_minecraft: Minecraft) -> (r: ProviderType)
        ensures
            r@.name == "minecraft"@,
            r@.config == Seq::<(Seq<char>, Seq<char>)>::empty(),
            r.wf(),
    {
        ProviderType::new(owned("minecraft"))
    }
}

/// A one-entry (or empty) configuration for an optional command.
pub open spec fn opt_entry(key: Seq<char>, v: Option<Seq<char>>) -> Seq<(Seq<char>, Seq<char>)> {
    match v {
        Some(x) => seq![(key, x)],
        None => Seq::empty(),
    }
}

/// The configuration a custom provider's commands make.
pub open spec fn custom_config(c: CustomView) -> Seq<(Seq<char>, Seq<char>)> {
    opt_entry("pre_hook"@, c.pre_hook_cmd) + opt_entry("install"@, c.install_cmd) + opt_entry(
        "post_hook"@,
        c.post_hook_cmd,
    ) + opt_entry("start"@, c.start_cmd)
}

/// A custom provider: a shell command line for each stage, if any.
#[derive(Debug)]
pub struct Custom {
    pub pre_hook_cmd: Option<String>,
    pub install_cmd: Option<String>,
    pub post_hook_cmd: Option<String>,
    pub start_cmd: Option<String>,
}

pub struct CustomView {
    pub pre_hook_cmd: Option<Seq<char>>,
    pub install_cmd: Option<Seq<char>>,
    pub post_hook_cmd: Option<Seq<char>>,
    pub start_cmd: Option<Seq<char>>,
}

impl View for Custom {
    type V = CustomView;

    open spec fn view(&self) -> CustomView {
        CustomView {
            pre_hook_cmd: opt_view(self.pre_hook_cmd),
            install_cmd: opt_view(self.install_cmd),
            post_hook_cmd: opt_view(self.post_hook_cmd),
            start_cmd: opt_view(self.start_cmd),
        }
    }
}

/// The command of an optional shell command line.
pub open spec fn shell_stage(os: TargetOs, line: Option<Seq<char>>) -> Option<CommandView> {
    match line {
        Some(l) => Some(shell_command(os, l)),
        None => None,
    }
}

fn shell_stage_exec(os: TargetOs, line: &Option<String>) -> (r: Option<CommandSpec>)
    ensures
        opt_command(r) == shell_stage(os, opt_view(*line)),
{
    match line {
        Some(l) => Some(shell(os, l.clone())),
        None => None,
    }
}

impl Custom {
    /// A custom provider without commands.
    pub fn new() -> (r: Custom)
        ensures
            r@ == (CustomView {
                pre_hook_cmd: None,
                install_cmd: None,
                post_hook_cmd: None,
                start_cmd: None,
            }),
    {
        Custom { pre_hook_cmd: None, install_cmd: None, post_hook_cmd: None, start_cmd: None }
    }

    /// The provider with that pre-hook command.
    pub fn with_pre_hook(self, cmd: String) -> (r: Custom)
        ensures
            r@ == (CustomView { pre_hook_cmd: Some(cmd@), ..self@ }),
    {
        let mut this = self;
        this.pre_hook_cmd = Some(cmd);
        this
    }

    /// The provider with that install command.
    pub fn with_install(self, cmd: String) -> (r: Custom)
        ensures
            r@ == (CustomView { install_cmd: Some(cmd@), ..self@ }),
    {
        let mut this = self;
        this.install_cmd = Some(cmd);
        this
    }

    /// The provider with that post-hook command.
    pub fn with_post_hook(self, cmd: String) -> (r: Custom)
        ensures
            r@ == (CustomView { post_hook_cmd: Some(cmd@), ..self@ }),
    {
        let mut this = self;
        this.post_hook_cmd = Some(cmd);
        this
    }

    /// The provider with that start command.
    pub fn with_start(self, cmd: String) -> (r: Custom)
        ensures
            r@ == (CustomView { start_cmd: Some(cmd@), ..self@ }),
    {
        let mut this = self;
        this.start_cmd = Some(cmd);
        this
    }

    /// The custom provider that a provider's configuration describes: the
    /// values under `pre_hook`, `install`, `post_hook` and `start`.
    pub fn from_provider_type(provider: ProviderType) -> (r: Custom)
        ensures
            r@ == (CustomView {
                pre_hook_cmd: config_get(provider@.config, "pre_hook"@),
                install_cmd: config_get(provider@.config, "install"@),
                post_hook_cmd: config_get(provider@.config, "post_hook"@),
                start_cmd: config_get(provider@.config, "start"@),
            }),
    {
        let pre = match provider.get_config("pre_hook") {
            Some(v) => Some(v.clone()),
            None => None,
        };
        let install = match provider.get_config("install") {
            Some(v) => Some(v.clone()),
            None => None,
        };
        let post = match provider.get_config("post_hook") {
            Some(v) => Some(v.clone()),
            None => None,
        };
        let start = match provider.get_config("start") {
            Some(v) => Some(v.clone()),
            None => None,
        };
        Custom { pre_hook_cmd: pre, install_cmd: install, post_hook_cmd: post, start_cmd: start }
    }
}

impl Provider for Custom {
    fn pre_hook(&self, os: TargetOs) -> (r: Option<CommandSpec>)
        ensures
            opt_command(r) == shell_stage(os, self@.pre_hook_cmd),
    {
        shell_stage_exec(os, &self.pre_hook_cmd)
    }

    fn install(&self, os: TargetOs) -> (r: Option<CommandSpec>)
        ensures
            opt_command(r) == shell_stage(os, self@.install_cmd),
    {
        shell_stage_exec(os, &self.install_cmd)
    }

    fn post_hook(&self, os: TargetOs) -> (r: Option<CommandSpec>)
        ensures
            opt_command(r) == shell_stage(os, self@.post_hook_cmd),
    {
        shell_stage_exec(os, &self.post_hook_cmd)
    }

    fn start(&self, os: TargetOs) -> (r: Option<CommandSpec>)
        ensures
            opt_command(r) == shell_stage(os, self@.start_cmd),
    {
        shell_stage_exec(os, &self.start_cmd)
    }
}

/// The Minecraft provider.
#[derive(Debug, Clone, Copy)]
pub struct Minecraft;

impl Minecraft {
    /// The Minecraft provider (a provider's configuration plays no part).
    pub fn from_provider_type(_provider: ProviderType) -> (r: Minecraft) {
        Minecraft
    }
}

/// The Minecraft pre-hook: install the tools the server download needs.
pub open spec fn minecraft_pre_hook(os: TargetOs) -> Option<CommandView> {
    match os {
        TargetOs::Linux => Some(
            shell_command(os, "apt-get update && apt-get install -y libssl-dev pkg-config wget"@),
        ),
        TargetOs::Windows => Some(shell_command(os, "choco install -y wget"@)),
        TargetOs::Other => None,
    }
}

/// The Minecraft install stage: install Java.
pub open spec fn minecraft_install(os: TargetOs) -> Option<CommandView> {
    match os {
        TargetOs::Linux => Some(
            shell_command(
                os,
                "apt-get install -y openjdk-17-jre-headless && update-alternatives --set java /usr/lib/jvm/java-17-openjdk-amd64/bin/java"@,
            ),
        ),
        TargetOs::Windows => Some(shell_command(os, "choco install -y openjdk"@)),
        TargetOs::Other => None,
    }
}

/// The Minecraft post-hook: fetch the server jar into `server` and accept
/// the EULA.
pub open spec fn minecraft_post_hook(os: TargetOs) -> Option<CommandView> {
    match os {
        TargetOs::Linux => Some(
            shell_command(
                os,
                "mkdir -p server && cd server && wget -O server.jar https://piston-data.mojang.com/v1/objects/84194a2f286ef7c14ed7ce0090dba59902951553/server.jar && echo 'eula=true' > eula.txt"@,
            ),
        ),
        TargetOs::Windows => Some(
            shell_command(
                os,
                "New-Item -ItemType Directory -Force -Path server; cd server; Invoke-WebRequest -Uri https://piston-data.mojang.com/v1/objects/84194a2f286ef7c14ed7ce0090dba59902951553/server.jar -OutFile server.jar; 'eula=true' | Out-File -Encoding ASCII eula.txt"@,
            ),
        ),
        TargetOs::Other => None,
    }
}

/// The Minecraft start stage: run the jar from `server`.
pub open spec fn minecraft_start(os: TargetOs) -> Option<CommandView> {
    if os == TargetOs::Other {
        None
    } else {
        Some(
            CommandView {
                program: "java"@,
                args: seq!["-Xmx1024M"@, "-Xms1024M"@, "-jar"@, "server.jar"@, "nogui"@],
                current_dir: Some("server"@),
            },
        )
    }
}

impl Provider for Minecraft {
    fn pre_hook(&self, os: TargetOs) -> (r: Option<CommandSpec>)
        ensures
            opt_command(r) == minecraft_pre_hook(os),
    {
        match os {
            TargetOs::Linux => Some(
                shell(os, owned("apt-get update && apt-get install -y libssl-dev pkg-config wget")),
            ),
            TargetOs::Windows => Some(shell(os, owned("choco install -y wget"))),
            TargetOs::Other => None,
        }
    }

    fn install(&self, os: TargetOs) -> (r: Option<CommandSpec>)
        ensures
            opt_command(r) == minecraft_install(os),
    {
        match os {
            TargetOs::Linux => Some(
                shell(
                    os,
                    owned(
                        "apt-get install -y openjdk-17-jre-headless && update-alternatives --set java /usr/lib/jvm/java-17-openjdk-amd64/bin/java",
                    ),
                ),
            ),
            TargetOs::Windows => Some(shell(os, owned("choco install -y openjdk"))),
            TargetOs::Other => None,
        }
    }

    fn post_hook(&self, os: TargetOs) -> (r: Option<CommandSpec>)
        ensures
            opt_command(r) == minecraft_post_hook(os),
    {
        match os {
            TargetOs::Linux => Some(
                shell(
                    os,
                    owned(
                        "mkdir -p server && cd server && wget -O server.jar https://piston-data.mojang.com/v1/objects/84194a2f286ef7c14ed7ce0090dba59902951553/server.jar && echo 'eula=true' > eula.txt",
                    ),
                ),
            ),
            TargetOs::Windows => Some(
                shell(
                    os,
                    owned(
                        "New-Item -ItemType Directory -Force -Path server; cd server; Invoke-WebRequest -Uri https://piston-data.mojang.com/v1/objects/84194a2f286ef7c14ed7ce0090dba59902951553/server.jar -OutFile server.jar; 'eula=true' | Out-File -Encoding ASCII eula.txt",
                    ),
                ),
            ),
            TargetOs::Other => None,
        }
    }

    fn start(&self, os: TargetOs) -> (r: Option<CommandSpec>)
        ensures
            opt_command(r) == minecraft_start(os),
    {
        if os == TargetOs::Other {
            return None;
        }
        let mut args: Vec<String> = Vec::new();
        args.push(owned("-Xmx1024M"));
        args.push(owned("-Xms1024M"));
        args.push(owned("-jar"));
        args.push(owned("server.jar"));
        args.push(owned("nogui"));
        let r = CommandSpec { program: owned("java"), args, current_dir: Some(owned("server")) };
        assert(r@.args =~= seq!["-Xmx1024M"@, "-Xms1024M"@, "-jar"@, "server.jar"@, "nogui"@]);
        Some(r)
    }
}

/// A stage of a provider chosen by its name: Minecraft's for `minecraft`,
/// the configured custom one for `custom`, none otherwise.
pub open spec fn provider_stage(
    p: ProviderTypeView,
    os: TargetOs,
    minecraft: Option<CommandView>,
    key: Seq<char>,
) -> Option<CommandView> {
    if p.name == "minecraft"@ {
        minecraft
    } else if p.name == "custom"@ {
        shell_stage(os, config_get(p.config, key))
    } else {
        None
    }
}

impl Provider for ProviderType {
    fn pre_hook(&self, os: TargetOs) -> (r: Option<CommandSpec>)
        ensures
            opt_command(r) == provider_stage(self@, os, minecraft_pre_hook(os), "pre_hook"@),
    {
        if str_eq(self.name.as_str(), "minecraft") {
            Minecraft.pre_hook(os)
        } else if str_eq(self.name.as_str(), "custom") {
            Custom::from_provider_type(self.clone()).pre_hook(os)
        } else {
            None
        }
    }

    fn install(&self, os: TargetOs) -> (r: Option<CommandSpec>)
        ensures
            opt_command(r) == provider_stage(self@, os, minecraft_install(os), "install"@),
    {
        if str_eq(self.name.as_str(), "minecraft") {
            Minecraft.install(os)
        } else if str_eq(self.name.as_str(), "custom") {
            Custom::from_provider_type(self.clone()).install(os)
        } else {
            None
        }
    }

    fn post_hook(&self, os: TargetOs) -> (r: Option<CommandSpec>)
        ensures
            opt_command(r) == provider_stage(self@, os, minecraft_post_hook(os), "post_hook"@),
    {
        if str_eq(self.name.as_str(), "minecraft") {
            Minecraft.post_hook(os)
        } else if str_eq(self.name.as_str(), "custom") {
            Custom::from_provider_type(self.clone()).post_hook(os)
        } else {
            None
        }
    }

    fn start(&self, os: TargetOs) -> (r: Option<CommandSpec>)
        ensures
            opt_command(r) == provider_stage(self@, os, minecraft_start(os), "start"@),
    {
        if str_eq(self.name.as_str(), "minecraft") {
            Minecraft.start(os)
        } else if str_eq(self.name.as_str(), "custom") {
            Custom::from_provider_type(self.clone()).start(os)
        } else {
            None
        }
    }
}

/// The built-in provider of a name: Minecraft, an unconfigured custom one,
/// or none.
pub fn get_provider(name: &str) -> (r: Option<ProviderType>)
    ensures
        name@ == "minecraft"@ ==> (r matches Some(p) && p@.name == "minecraft"@ && p@.config
            == Seq::<(Seq<char>, Seq<char>)>::empty()),
        name@ != "minecraft"@ && name@ == "custom"@ ==> (r matches Some(p) && p@.name
            == "custom"@ && p@.config == Seq::<(Seq<char>, Seq<char>)>::empty()),
        name@ != "minecraft"@ && name@ != "custom"@ ==> r is None,
        r matches Some(p) ==> p.wf(),
{
    if str_eq(name, "minecraft") {
        Some(ProviderType::from_minecraft(Minecraft))
    } else if str_eq(name, "custom") {
        let p = ProviderType::from_custom(Custom::new());
        assert(p@.config =~= Seq::<(Seq<char>, Seq<char>)>::empty());
        Some(p)
    } else {
        None
    }
}

/// The custom provider with the given commands.
pub fn create_custom_provider(
    pre_hook: Option<&str>,
    install: Option<&str>,
    post_hook: Option<&str>,
    start: Option<&str>,
) -> (r: ProviderType)
    ensures
        r@.name == "custom"@,
        r@.config == custom_config(
            CustomView {
                pre_hook_cmd: match pre_hook {
                    Some(c) => Some(c@),
                    None => None,
                },
                install_cmd: match install {
                    Some(c) => Some(c@),
                    None => None,
                },
                post_hook_cmd: match post_hook {
                    Some(c) => Some(c@),
                    None => None,
                },
                start_cmd: match start {
                    Some(c) => Some(c@),
                    None => None,
                },
            },
        ),
        r.wf(),
{
    let mut custom = Custom::new();
    if let Some(cmd) = pre_hook {
        custom = custom.with_pre_hook(owned(cmd));
    }
    if let Some(cmd) = install {
        custom = custom.with_install(owned(cmd));
    }
    if let Some(cmd) = post_hook {
        custom = custom.with_post_hook(owned(cmd));
    }
    if let Some(cmd) = start {
        custom = custom.with_start(owned(cmd));
    }
    ProviderType::from_custom(custom)
}

/// The custom provider that a `provider.json` configuration describes.
pub fn custom_from_config(config: ProviderConfig) -> (r: ProviderType)
    ensures
        r@.name == "custom"@,
        r@.config == custom_config(
            CustomView {
                pre_hook_cmd: opt_view(config.pre_hook),
                install_cmd: opt_view(config.install),
                post_hook_cmd: opt_view(config.post_hook),
                start_cmd: opt_view(config.start),
            },
        ),
        r.wf(),
{
    let mut custom = Custom::new();
    if let Some(cmd) = config.pre_hook {
        custom = custom.with_pre_hook(cmd);
    }
    if let Some(cmd) = config.install {
        custom = custom.with_install(cmd);
    }
    if let Some(cmd) = config.post_hook {
        custom = custom.with_post_hook(cmd);
    }
    if let Some(cmd) = config.start {
        custom = custom.with_start(cmd);
    }
    ProviderType::from_custom(custom)
}

/// The four stage keys are distinct.
pub proof fn lemma_stage_keys_distinct()
    ensures
        "pre_hook"@ != "install"@,
        "pre_hook"@ != "post_hook"@,
        "pre_hook"@ != "start"@,
        "install"@ != "post_hook"@,
        "install"@ != "start"@,
        "post_hook"@ != "start"@,
{
    reveal_strlit("pre_hook");
    reveal_strlit("install");
    reveal_strlit("post_hook");
    reveal_strlit("start");
    assert("pre_hook"@.len() == 8);
    assert("install"@.len() == 7);
    assert("post_hook"@.len() == 9);
    assert("start"@.len() == 5);
}

/// Turning a custom provider into a provider and back gives the same
/// commands.
pub proof fn lemma_custom_round_trip(c: CustomView)
    ensures
        config_get(custom_config(c), "pre_hook"@) == c.pre_hook_cmd,
        config_get(custom_config(c), "install"@) == c.install_cmd,
        config_get(custom_config(c), "post_hook"@) == c.post_hook_cmd,
        config_get(custom_config(c), "start"@) == c.start_cmd,
{
    reveal_strlit("pre_hook");
    reveal_strlit("install");
    reveal_strlit("post_hook");
    reveal_strlit("start");
    lemma_stage_keys_distinct();
    let e0 = Seq::<(Seq<char>, Seq<char>)>::empty();
    let a = opt_entry("pre_hook"@, c.pre_hook_cmd);
    let b = a + opt_entry("install"@, c.install_cmd);
    let d = b + opt_entry("post_hook"@, c.post_hook_cmd);
    let f = d + opt_entry("start"@, c.start_cmd);
    assert(f =~= custom_config(c));
    lemma_config_step(e0, "pre_hook"@, c.pre_hook_cmd);
    assert(e0 + a =~= a);
    lemma_config_step(a, "install"@, c.install_cmd);
    lemma_config_step(b, "post_hook"@, c.post_hook_cmd);
    lemma_config_step(d, "start"@, c.start_cmd);
    lemma_config_absent_extend(a, "pre_hook"@, opt_entry("install"@, c.install_cmd));
    lemma_config_absent_extend(b, "pre_hook"@, opt_entry("post_hook"@, c.post_hook_cmd));
    lemma_config_absent_extend(d, "pre_hook"@, opt_entry("start"@, c.start_cmd));
    lemma_config_absent_extend(b, "install"@, opt_entry("post_hook"@, c.post_hook_cmd));
    lemma_config_absent_extend(d, "install"@, opt_entry("start"@, c.start_cmd));
    lemma_config_absent_extend(d, "post_hook"@, opt_entry("start"@, c.start_cmd));
}

proof fn lemma_config_step(
    cfg: Seq<(Seq<char>, Seq<char>)>,
    key: Seq<char>,
    v: Option<Seq<char>>,
)
    requires
        !has_key(cfg, entry_key(), key),
    ensures
        config_get(cfg + opt_entry(key, v), key) == v,
{
    match v {
        Some(x) => {
            assert(cfg + opt_entry(key, v) =~= cfg.push((key, x)));
            lemma_lookup_push(cfg, entry_key(), (key, x), key);
        },
        None => {
            assert(cfg + opt_entry(key, v) =~= cfg);
            lemma_key_index_none(cfg, entry_key(), key);
        },
    }
}

proof fn lemma_config_absent_extend(
    cfg: Seq<(Seq<char>, Seq<char>)>,
    key: Seq<char>,
    more: Seq<(Seq<char>, Seq<char>)>,
)
    requires
        more.len() <= 1,
        more.len() == 1 ==> more[0].0 != key,
    ensures
        config_get(cfg + more, key) == config_get(cfg, key),
{
    if more.len() == 1 {
        if !has_key(cfg, entry_key(), more[0].0) {
            assert(cfg + more =~= cfg.push(more[0]));
            lemma_lookup_push(cfg, entry_key(), more[0], key);
        } else {
            crate::keyed::lemma_has_key_found(cfg, entry_key(), more[0].0);
            if has_key(cfg, entry_key(), key) {
                crate::keyed::lemma_has_key_found(cfg, entry_key(), key);
                let i = choose|i: int| first_key_at(cfg, entry_key(), key, i);
                lemma_key_index_at(cfg, entry_key(), key, i);
                assert(first_key_at(cfg + more, entry_key(), key, i));
                lemma_key_index_at(cfg + more, entry_key(), key, i);
            } else {
                lemma_key_index_none(cfg, entry_key(), key);
                assert(!has_key(cfg + more, entry_key(), key)) by {
                    if has_key(cfg + more, entry_key(), key) {
                        let m = choose|m: int|
                            0 <= m < (cfg + more).len() && (cfg + more)[m].0 == key;
                        if m < cfg.len() {
                            assert((cfg + more)[m] == cfg[m]);
                        }
                    }
                }
                lemma_key_index_none(cfg + more, entry_key(), key);
            }
        }
    } else {
        assert(cfg + more =~= cfg);
    }
}

proof fn lemma_config_insert(cfg: Seq<(Seq<char>, Seq<char>)>, k: Seq<char>, v: Seq<char>)
    requires
        keys_unique(cfg),
    ensures
        keys_unique(config_insert(cfg, k, v)),
        config_get(config_insert(cfg, k, v), k) == Some(v),
        forall|k2: Seq<char>|
            k2 != k ==> #[trigger] config_get(config_insert(cfg, k, v), k2) == config_get(
                cfg,
                k2,
            ),
{
    let ins = config_insert(cfg, k, v);
    match crate::keyed::key_index(cfg, entry_key(), k) {
        Some(i) => {
            assert(exists|j: int| first_key_at(cfg, entry_key(), k, j));
            assert(first_key_at(cfg, entry_key(), k, i));
            assert(ins == cfg.update(i, (k, v)));
            assert(first_key_at(ins, entry_key(), k, i)) by {
                assert forall|j: int| 0 <= j < i implies entry_key()(ins[j]) != k by {
                    assert(ins[j] == cfg[j]);
                }
            }
            lemma_key_index_at(ins, entry_key(), k, i);
            assert forall|k2: Seq<char>| k2 != k implies #[trigger] config_get(ins, k2)
                == config_get(cfg, k2) by {
                if has_key(cfg, entry_key(), k2) {
                    crate::keyed::lemma_has_key_found(cfg, entry_key(), k2);
                    let j = choose|j: int| first_key_at(cfg, entry_key(), k2, j);
                    assert(j != i);
                    assert(first_key_at(ins, entry_key(), k2, j)) by {
                        assert(ins[j] == cfg[j]);
                        assert forall|m: int| 0 <= m < j implies entry_key()(ins[m]) != k2 by {
                            if m != i {
                                assert(ins[m] == cfg[m]);
                            }
                        }
                    }
                    lemma_key_index_at(cfg, entry_key(), k2, j);
                    lemma_key_index_at(ins, entry_key(), k2, j);
                } else {
                    assert(!has_key(ins, entry_key(), k2)) by {
                        if has_key(ins, entry_key(), k2) {
                            let m = choose|m: int| 0 <= m < ins.len() && entry_key()(ins[m]) == k2;
                            assert(m != i);
                            assert(ins[m] == cfg[m]);
                        }
                    }
                    lemma_key_index_none(cfg, entry_key(), k2);
                    lemma_key_index_none(ins, entry_key(), k2);
                }
            }
            assert forall|a: int, b: int| 0 <= a < b < ins.len() implies ins[a].0 != ins[b].0 by {
                if a != i && b != i {
                    assert(ins[a] == cfg[a] && ins[b] == cfg[b]);
                } else if a == i {
                    assert(ins[b] == cfg[b]);
                } else {
                    assert(ins[a] == cfg[a]);
                }
            }
        },
        None => {
            assert(!has_key(cfg, entry_key(), k)) by {
                if has_key(cfg, entry_key(), k) {
                    crate::keyed::lemma_has_key_found(cfg, entry_key(), k);
                }
            }
            assert(ins == cfg.push((k, v)));
            lemma_lookup_push(cfg, entry_key(), (k, v), k);
            assert forall|k2: Seq<char>| k2 != k implies #[trigger] config_get(ins, k2)
                == config_get(cfg, k2) by {
                lemma_lookup_push(cfg, entry_key(), (k, v), k2);
            }
            assert forall|a: int, b: int| 0 <= a < b < ins.len() implies ins[a].0 != ins[b].0 by {
                if b == cfg.len() {
                    assert(ins[a] == cfg[a]);
                    assert(entry_key()(cfg[a]) == cfg[a].0);
                } else {
                    assert(ins[a] == cfg[a] && ins[b] == cfg[b]);
                }
            }
        },
    }
}

/// A provider's configuration reads back what was last written under a
/// key: after writing `v1` and then `v2` under `k`, `k` holds `v2`; writing
/// a key leaves every other key as it was; a provider without configuration
/// holds no key.
pub proof fn lemma_config_last_write_wins(
    cfg: Seq<(Seq<char>, Seq<char>)>,
    k: Seq<char>,
    v1: Seq<char>,
    v2: Seq<char>,
    other: Seq<char>,
)
    requires
        keys_unique(cfg),
    ensures
        config_get(config_insert(config_insert(cfg, k, v1), k, v2), k) == Some(v2),
        config_get(config_insert(cfg, k, v1), k) == Some(v1),
        other != k ==> config_get(config_insert(cfg, k, v1), other) == config_get(cfg, other),
        config_get(Seq::<(Seq<char>, Seq<char>)>::empty(), k) == None::<Seq<char>>,
{
    lemma_config_insert(cfg, k, v1);
    lemma_config_insert(config_insert(cfg, k, v1), k, v2);
    lemma_key_index_none(Seq::<(Seq<char>, Seq<char>)>::empty(), entry_key(), k);
}

} // verus!
