//! The settings Globlin keeps in `globlin.json`.
use vstd::prelude::*;

use crate::model::SourceKind;

verus! {

/// Which sources are checked.
#[derive(Debug, Clone, Copy, PartialEq, Eq, Structural)]
pub struct Sources {
    pub npm: bool,
    pub bun: bool,
    pub pnpm: bool,
    pub yarn: bool,
    pub pipx: bool,
    pub uv: bool,
    pub scoop: bool,
    pub cargo: bool,
    pub go: bool,
    pub dotnet: bool,
    pub psgallery: bool,
    pub gem: bool,
    pub winget: bool,
    pub choco: bool,
}

#[derive(Debug, Clone)]
pub struct Config {
    pub check_interval_hours: u64,
    pub sources: Sources,
    pub ignore: Vec<String>,
    pub last_notified: Vec<String>,
    pub npm_cmd: Option<String>,
    pub auto_update: bool,
    pub last_self_notice: Option<String>,
}

/// Whether `kind` is switched on in `s`.
pub open spec fn switched_on(s: Sources, kind: SourceKind) -> bool {
    match kind {
        SourceKind::Npm => s.npm,
        SourceKind::Bun => s.bun,
        SourceKind::Pnpm => s.pnpm,
        SourceKind::Yarn => s.yarn,
        SourceKind::Pipx => s.pipx,
        SourceKind::Uv => s.uv,
        SourceKind::Scoop => s.scoop,
        SourceKind::Cargo => s.cargo,
        SourceKind::Go => s.go,
        SourceKind::Dotnet => s.dotnet,
        SourceKind::PsGallery => s.psgallery,
        SourceKind::Gem => s.gem,
        SourceKind::Winget => s.winget,
        SourceKind::Choco => s.choco,
    }
}

/// npm and bun are checked out of the box; every other source is opted into.
pub open spec fn default_sources() -> Sources {
    Sources {
        npm: true,
        bun: true,
        pnpm: false,
        yarn: false,
        pipx: false,
        uv: false,
        scoop: false,
        cargo: false,
        go: false,
        dotnet: false,
        psgallery: false,
        gem: false,
        winget: false,
        choco: false,
    }
}

impl Default for Sources {
    fn default() -> (s: Sources)
        ensures
            s == default_sources(),
    {
        Sources {
            npm: true,
            bun: true,
            pnpm: false,
            yarn: false,
            pipx: false,
            uv: false,
            scoop: false,
            cargo: false,
            go: false,
            dotnet: false,
            psgallery: false,
            gem: false,
            winget: false,
            choco: false,
        }
    }
}

impl Default for Config {
    /// Checks every six hours; npm is ignored, since updating it on Windows
    /// rewrites its own shim mid-run.
    fn default() -> (c: Config)
        ensures
            c.check_interval_hours == 6,
            c.sources == default_sources(),
            c.ignore@.len() == 1,
            c.ignore@[0]@ == "npm"@,
            c.last_notified@.len() == 0,
            c.npm_cmd is None,
            !c.auto_update,
            c.last_self_notice is None,
    {
        let mut ignore: Vec<String> = Vec::new();
        ignore.push(String::from_str("npm"));
        Config {
            check_interval_hours: 6,
            sources: Sources::default(),
            ignore,
            last_notified: Vec::new(),
            npm_cmd: None,
            auto_update: false,
            last_self_notice: None,
        }
    }
}

impl Config {
    pub fn source_enabled(&self, kind: SourceKind) -> (r: bool)
        ensures
            r == switched_on(self.sources, kind),
    {
        let s = &self.sources;
        match kind {
            SourceKind::Npm => s.npm,
            SourceKind::Bun => s.bun,
            SourceKind::Pnpm => s.pnpm,
            SourceKind::Yarn => s.yarn,
            SourceKind::Pipx => s.pipx,
            SourceKind::Uv => s.uv,
            SourceKind::Scoop => s.scoop,
            SourceKind::Cargo => s.cargo,
            SourceKind::Go => s.go,
            SourceKind::Dotnet => s.dotnet,
            SourceKind::PsGallery => s.psgallery,
            SourceKind::Gem => s.gem,
            SourceKind::Winget => s.winget,
            SourceKind::Choco => s.choco,
        }
    }

    /// Switches `kind` on or off and leaves every other setting as it was.
    pub fn set_source_enabled(&mut self, kind: SourceKind, on: bool)
        ensures
            switched_on(final(self).sources, kind) == on,
            forall|other: SourceKind|
                other != kind ==> switched_on(final(self).sources, other) == switched_on(
                    old(self).sources,
                    other,
                ),
            final(self).check_interval_hours == old(self).check_interval_hours,
            final(self).ignore == old(self).ignore,
            final(self).last_notified == old(self).last_notified,
            final(self).npm_cmd == old(self).npm_cmd,
            final(self).auto_update == old(self).auto_update,
            final(self).last_self_notice == old(self).last_self_notice,
    {
        match kind {
            SourceKind::Npm => self.sources.npm = on,
            SourceKind::Bun => self.sources.bun = on,
            SourceKind::Pnpm => self.sources.pnpm = on,
            SourceKind::Yarn => self.sources.yarn = on,
            SourceKind::Pipx => self.sources.pipx = on,
            SourceKind::Uv => self.sources.uv = on,
            SourceKind::Scoop => self.sources.scoop = on,
            SourceKind::Cargo => self.sources.cargo = on,
            SourceKind::Go => self.sources.go = on,
            SourceKind::Dotnet => self.sources.dotnet = on,
            SourceKind::PsGallery => self.sources.psgallery = on,
            SourceKind::Gem => self.sources.gem = on,
            SourceKind::Winget => self.sources.winget = on,
            SourceKind::Choco => self.sources.choco = on,
        }
    }
}


/// Each source is switched on by its own field of `Sources`, the one that
/// bears its label (the key `globlin.json` gives it), and by no other.
pub proof fn lemma_each_source_has_its_own_switch(s: Sources)
    ensures
        switched_on(s, SourceKind::Npm) == s.npm,
        switched_on(s, SourceKind::Bun) == s.bun,
        switched_on(s, SourceKind::Pnpm) == s.pnpm,
        switched_on(s, SourceKind::Yarn) == s.yarn,
        switched_on(s, SourceKind::Pipx) == s.pipx,
        switched_on(s, SourceKind::Uv) == s.uv,
        switched_on(s, SourceKind::Scoop) == s.scoop,
        switched_on(s, SourceKind::Cargo) == s.cargo,
        switched_on(s, SourceKind::Go) == s.go,
        switched_on(s, SourceKind::Dotnet) == s.dotnet,
        switched_on(s, SourceKind::PsGallery) == s.psgallery,
        switched_on(s, SourceKind::Gem) == s.gem,
        switched_on(s, SourceKind::Winget) == s.winget,
        switched_on(s, SourceKind::Choco) == s.choco,
{
}

/// Switching on one source alone switches on that source and no other.
pub proof fn lemma_one_switch_one_source(s: Sources, kind: SourceKind, other: SourceKind)
    requires
        switched_on(s, kind),
        s.npm as int + s.bun as int + s.pnpm as int + s.yarn as int + s.pipx as int + s.uv as int
            + s.scoop as int + s.cargo as int + s.go as int + s.dotnet as int + s.psgallery as int
            + s.gem as int + s.winget as int + s.choco as int == 1,
        other != kind,
    ensures
        !switched_on(s, other),
{
}

} // verus!
