//! The order of the work.
//!
//! Provisioning is a fixed sequence of phases. Each phase depends on what
//! the one before it left on disk, so they run one after the other, and the
//! first failure ends the run. Two facts decide which phases run: whether
//! the target directory already holds the package manager, and whether a
//! manifest of dependencies was given.

use vstd::prelude::*;

verus! {

/// One phase of provisioning.
#[derive(Clone, Copy, Debug, PartialEq, Eq, Structural)]
pub enum Phase {
    /// Settle the interpreter version, from the caller or from the host
    /// interpreter.
    ResolveVersion,
    /// Find the library directory of the host installation.
    LocateHostLibraries,
    /// Download the embeddable archive and unpack it into the target
    /// directory.
    FetchDistribution,
    /// Copy the host libraries that the archive did not bring.
    MergeLibraries,
    /// Put the `import site` directive in force.
    PatchImportSite,
    /// Download the installer script and run it.
    BootstrapInstaller,
    /// Install what the manifest declares.
    InstallRequirements,
}

impl Phase {
    /// Whether the phase makes a network request.
    pub open spec fn uses_network(self) -> bool {
        self is FetchDistribution || self is BootstrapInstaller
    }

    /// Whether the phase unpacks an archive.
    pub open spec fn extracts(self) -> bool {
        self is FetchDistribution
    }

    /// Whether the phase belongs to the assembly of the environment.
    pub open spec fn assembles(self) -> bool {
        !(self is ResolveVersion) && !(self is InstallRequirements)
    }

    /// Whether the phase makes a network request.
    pub fn needs_network(self) -> (b: bool)
        ensures
            b == self.uses_network(),
    {
        match self {
            Phase::FetchDistribution | Phase::BootstrapInstaller => true,
            _ => false,
        }
    }
}

/// The phases that assemble an environment, in order. The host libraries
/// are looked for first, so that a host without them fails before anything
/// is downloaded.
pub open spec fn assembly() -> Seq<Phase> {
    seq![
        Phase::LocateHostLibraries,
        Phase::FetchDistribution,
        Phase::MergeLibraries,
        Phase::PatchImportSite,
        Phase::BootstrapInstaller,
    ]
}

/// The phases of one run, in order. The version is always settled. The
/// assembly is left out as a whole where the package manager is already
/// there (`marker_present`); only its presence is looked at, not the
/// version that was once installed. The requirements are installed last,
/// and only where a manifest was given.
pub open spec fn plan(marker_present: bool, has_manifest: bool) -> Seq<Phase> {
    let head = seq![Phase::ResolveVersion];
    let middle = if marker_present {
        Seq::<Phase>::empty()
    } else {
        assembly()
    };
    let tail = if has_manifest {
        seq![Phase::InstallRequirements]
    } else {
        Seq::<Phase>::empty()
    };
    head + middle + tail
}

/// The phases of one run, in order.
pub fn provisioning_plan(marker_present: bool, has_manifest: bool) -> (phases: Vec<Phase>)
    ensures
        phases@ == plan(marker_present, has_manifest),
{
    let mut phases: Vec<Phase> = Vec::new();
    phases.push(Phase::ResolveVersion);
    if !marker_present {
        phases.push(Phase::LocateHostLibraries);
        phases.push(Phase::FetchDistribution);
        phases.push(Phase::MergeLibraries);
        phases.push(Phase::PatchImportSite);
        phases.push(Phase::BootstrapInstaller);
    }
    if has_manifest {
        phases.push(Phase::InstallRequirements);
    }
    assert(phases@ =~= plan(marker_present, has_manifest));
    phases
}

/// A run on a target directory that already holds the package manager asks
/// nothing of the network, unpacks nothing and assembles nothing: after the
/// version it goes straight to the requirements, if a manifest was given,
/// and is done otherwise.
pub proof fn lemma_assembled_environment_is_reused(has_manifest: bool)
    ensures
        has_manifest ==> plan(true, has_manifest) == seq![
            Phase::ResolveVersion,
            Phase::InstallRequirements,
        ],
        !has_manifest ==> plan(true, has_manifest) == seq![Phase::ResolveVersion],
        forall|i: int|
            0 <= i < plan(true, has_manifest).len() ==> !(#[trigger] plan(true, has_manifest)[i])
                .uses_network(),
        forall|i: int|
            0 <= i < plan(true, has_manifest).len() ==> !(#[trigger] plan(true, has_manifest)[i])
                .extracts(),
        forall|i: int|
            0 <= i < plan(true, has_manifest).len() ==> !(#[trigger] plan(true, has_manifest)[i])
                .assembles(),
{
    let phases = plan(true, has_manifest);
    if has_manifest {
        assert(phases =~= seq![Phase::ResolveVersion, Phase::InstallRequirements]);
    } else {
        assert(phases =~= seq![Phase::ResolveVersion]);
    }
}

/// In every run the host libraries are looked for before the first network
/// request: whenever a phase uses the network, an earlier phase of the same
/// run is `LocateHostLibraries`.
pub proof fn lemma_host_lookup_precedes_network(marker_present: bool, has_manifest: bool, at: int)
    requires
        0 <= at < plan(marker_present, has_manifest).len(),
        plan(marker_present, has_manifest)[at].uses_network(),
    ensures
        exists|earlier: int|
            0 <= earlier < at && #[trigger] plan(marker_present, has_manifest)[earlier]
                == Phase::LocateHostLibraries,
{
    let phases = plan(marker_present, has_manifest);
    if marker_present {
        lemma_assembled_environment_is_reused(has_manifest);
        assert(!phases[at].uses_network());
    } else {
        assert(phases[1] == Phase::LocateHostLibraries);
        assert(at != 0);
        assert(at != 1);
    }
}

} // verus!
