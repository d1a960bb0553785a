//! The configuration, and which implementation serves a feature.

use vstd::prelude::*;

verus! {

/// The implementations that a feature can be served by.
#[derive(Clone, Copy, Debug, PartialEq, Eq, Hash, Structural)]
pub enum Impl {
    Rust,
    Bash,
}

/// The features whose implementation can be chosen.
#[derive(Clone, Copy, Debug, PartialEq, Eq, Hash, Structural)]
pub enum Feature {
    /// Every feature that has no choice of its own.
    All,
    Env,
    Nix,
}

/// The choices that the configuration makes, one slot for each feature.
#[derive(Clone, Copy, Debug, Default)]
pub struct Features {
    pub all: Option<Impl>,
    pub env: Option<Impl>,
    pub nix: Option<Impl>,
}

impl Features {
    /// The choice made for `feature` itself, if any.
    pub open spec fn choice(self, feature: Feature) -> Option<Impl> {
        match feature {
            Feature::All => self.all,
            Feature::Env => self.env,
            Feature::Nix => self.nix,
        }
    }

    /// The choice made for `feature` itself, if any.
    pub fn get(&self, feature: Feature) -> (out: Option<Impl>)
        ensures
            out == self.choice(feature),
    {
        match feature {
            Feature::All => self.all,
            Feature::Env => self.env,
            Feature::Nix => self.nix,
        }
    }
}

/// The settings of the tool itself.
#[derive(Clone, Debug, Default)]
pub struct FloxConfig {
    /// Whether telemetry is allowed; `None` while the user was not asked.
    pub allow_telemetry: Option<bool>,
    pub cache_dir: Vec<u8>,
    pub data_dir: Vec<u8>,
    pub config_dir: Vec<u8>,
}

/// The settings for nix.
#[derive(Clone, Copy, Debug, Default)]
pub struct NixConfig {}

/// The settings for github.
#[derive(Clone, Copy, Debug, Default)]
pub struct GithubConfig {}

/// The whole configuration.
#[derive(Clone, Debug, Default)]
pub struct Config {
    pub flox: FloxConfig,
    pub nix: NixConfig,
    pub github: GithubConfig,
    pub features: Features,
}

/// The implementation that serves a feature: its own choice, else the
/// choice for all features, else the feature's default. The default is
/// `Rust` for `Nix` and `Bash` for the others.
pub open spec fn implementation_spec(feature: Feature, features: Features) -> Impl {
    match feature {
        Feature::All => match features.all {
            Some(i) => i,
            None => Impl::Bash,
        },
        Feature::Env => match features.env {
            Some(i) => i,
            None => match features.all {
                Some(i) => i,
                None => Impl::Bash,
            },
        },
        Feature::Nix => match features.nix {
            Some(i) => i,
            None => match features.all {
                Some(i) => i,
                None => Impl::Rust,
            },
        },
    }
}

impl Feature {
    /// The implementation that serves this feature under `config`.
    pub fn implementation(&self, config: &Config) -> (out: Impl)
        ensures
            out == implementation_spec(*self, config.features),
    {
        let own = config.features.get(*self);
        let all = config.features.get(Feature::All);
        match own {
            Some(i) => i,
            None => match all {
                Some(i) => i,
                None => match self {
                    Feature::Nix => Impl::Rust,
                    _ => Impl::Bash,
                },
            },
        }
    }
}

} // verus!
