//! Resolving a version request against what is installed and what the
//! catalog offers for the host.

use vstd::prelude::*;
use crate::error::GdvmError;
use crate::host::{HostOs, HostPlatform};
use crate::metadata_cache::ReleaseCapabilitiesEntry;
use crate::registry::{
    arch_key_spec, platform_key_spec, registry_arch_key, registry_platform_key,
};
use crate::text::{chars_of, push_str, seq_eq, string_views};
use crate::version_utils::{
    concrete_views, sort_newest_first, ConcreteVersion, GodotVersion, GodotVersionDeterminate,
    GodotVersionDeterminateVecExt, PartialVersion,
};

verus! {

/// How a request is to be resolved.
#[derive(Debug)]
pub enum ResolveMode<'a> {
    /// Among the given installs.
    Installed { installed: &'a [GodotVersionDeterminate] },
    /// Among the releases of the catalog.
    Available { use_cache_only: bool },
    /// For installing: a fully given version is taken as it is.
    AutoInstall,
}

/// A version request together with the way to resolve it.
#[derive(Debug)]
pub struct ResolveRequest<'a> {
    pub query: GodotVersion,
    pub mode: ResolveMode<'a>,
}

/// What resolving gave.
#[derive(Debug)]
pub enum ResolveOutcome {
    /// Every install that fits, newest first.
    Candidates(Vec<GodotVersionDeterminate>),
    /// The one version chosen.
    Determinate(GodotVersionDeterminate),
    /// Nothing fits.
    NotFound,
}

/// What a request needs to know of the catalog before it can be resolved.
#[derive(Debug)]
pub enum CatalogQuestion {
    /// Nothing.
    Nothing,
    /// The releases that fit the query, each with its capabilities.
    Listing { use_cache_only: bool },
    /// The capabilities of the release with this registry tag.
    Exact(String),
}

/// What the catalog said in answer to a `CatalogQuestion`.
#[derive(Debug)]
pub enum CatalogAnswer {
    /// Nothing was asked.
    Nothing,
    /// The releases that fit the query, newest first, and for each of
    /// them, at the same position, its capabilities; `None` where they
    /// could not be had. A release without an entry counts as one whose
    /// capabilities could not be had.
    Listing { releases: Vec<GodotVersionDeterminate>, capabilities: Vec<Option<ReleaseCapabilitiesEntry>> },
    /// The capabilities of the one release asked for.
    Exact(ReleaseCapabilitiesEntry),
}

/// Resolves version requests for one host.
#[derive(Debug)]
pub struct RegistryVersionResolver {
    pub host: HostPlatform,
}

/// The capabilities list a binary that the host can run in the wanted
/// variant: one for the host's platform and architecture keys or, on
/// macOS, a universal one. A release without any C# binary never serves
/// the C# variant.
pub open spec fn compatible(caps: ReleaseCapabilitiesEntry, host: HostPlatform, needs_csharp: bool)
    -> bool {
    let platforms = string_views(caps.platforms@);
    let exact = platform_key_spec(host, needs_csharp) + seq!['-'] + arch_key_spec(host);
    let universal = platform_key_spec(host, needs_csharp) + "-universal"@;
    &&& needs_csharp ==> caps.has_csharp
    &&& platforms.contains(exact) || (host.os == HostOs::Macos && platforms.contains(universal))
}

/// The installs that fit the query, in their order.
pub open spec fn matching_installs(installed: Seq<ConcreteVersion>, query: PartialVersion) -> Seq<
    ConcreteVersion,
>
    decreases installed.len(),
{
    if installed.len() == 0 {
        installed
    } else {
        let front = matching_installs(installed.drop_last(), query);
        if query.matches(installed.last().to_indeterminate()) {
            front.push(installed.last())
        } else {
            front
        }
    }
}

/// The version chosen, with the variant flag of the query where the query
/// sets one.
pub open spec fn with_query_flag(query: PartialVersion, selected: ConcreteVersion)
    -> ConcreteVersion {
    if query.is_csharp is Some {
        ConcreteVersion { is_csharp: query.is_csharp, ..selected }
    } else {
        selected
    }
}

/// The request asks for the variant with C#.
pub open spec fn needs_csharp(query: PartialVersion) -> bool {
    query.is_csharp == Some(true)
}

/// The release at position `i` of a listing can be used on the host.
pub open spec fn eligible(
    releases: Seq<GodotVersionDeterminate>,
    capabilities: Seq<Option<ReleaseCapabilitiesEntry>>,
    host: HostPlatform,
    csharp: bool,
    i: int,
) -> bool {
    &&& 0 <= i < releases.len()
    &&& i < capabilities.len()
    &&& capabilities[i] is Some
    &&& compatible(capabilities[i]->0, host, csharp)
}

/// The release at position `i` is the one to take from a listing: it is
/// the first usable stable release, or there is no usable stable release
/// and it is the first usable one.
pub open spec fn is_choice(
    releases: Seq<GodotVersionDeterminate>,
    capabilities: Seq<Option<ReleaseCapabilitiesEntry>>,
    host: HostPlatform,
    csharp: bool,
    i: int,
) -> bool {
    &&& eligible(releases, capabilities, host, csharp, i)
    &&& if releases[i]@.is_stable() {
        forall|j: int|
            0 <= j < i ==> !(#[trigger] eligible(releases, capabilities, host, csharp, j)
                && releases[j]@.is_stable())
    } else {
        &&& forall|j: int|
            0 <= j < releases.len() ==> !(#[trigger] eligible(
                releases,
                capabilities,
                host,
                csharp,
                j,
            ) && releases[j]@.is_stable())
        &&& forall|j: int|
            0 <= j < i ==> !#[trigger] eligible(releases, capabilities, host, csharp, j)
    }
}

/// The request cannot be taken as it is: it is the bare word `stable`, or
/// something needed to name one release is missing.
pub open spec fn needs_listing(query: PartialVersion) -> bool {
    (query.is_stable() && query.major is None) || query.is_incomplete()
}

impl<'a> ResolveRequest<'a> {
    /// A request to be resolved among the given installs.
    pub fn installed(query: GodotVersion, installed: &'a [GodotVersionDeterminate]) -> (r: Self)
        ensures
            r.query == query,
            r.mode is Installed && r.mode->installed == installed,
    {
        ResolveRequest { query, mode: ResolveMode::Installed { installed } }
    }

    /// A request to be resolved among the releases of the catalog.
    pub fn available(query: GodotVersion, use_cache_only: bool) -> (r: Self)
        ensures
            r.query == query,
            r.mode is Available && r.mode->use_cache_only == use_cache_only,
    {
        ResolveRequest { query, mode: ResolveMode::Available { use_cache_only } }
    }

    /// A request to be resolved for installing.
    pub fn auto_install(query: GodotVersion) -> (r: Self)
        ensures
            r.query == query,
            r.mode is AutoInstall,
    {
        ResolveRequest { query, mode: ResolveMode::AutoInstall }
    }
}

impl RegistryVersionResolver {
    /// A resolver for the given host.
    pub fn new(host: HostPlatform) -> (r: Self)
        ensures
            r.host == host,
    {
        RegistryVersionResolver { host }
    }

    /// The version chosen, with the variant flag of the query where the
    /// query sets one.
    pub fn apply_csharp(&self, query: &GodotVersion, selected: GodotVersionDeterminate) -> (r:
        GodotVersionDeterminate)
        ensures
            r@ == with_query_flag(query@, selected@),
    {
        let mut selected = selected;
        match query.is_csharp {
            Some(flag) => {
                selected.is_csharp = Some(flag);
            },
            None => {},
        }
        selected
    }

    /// Whether a release with these capabilities can be used on the host
    /// in the wanted variant.
    pub fn is_compatible(&self, caps: &ReleaseCapabilitiesEntry, needs_csharp: bool) -> (r: bool)
        ensures
            r == compatible(*caps, self.host, needs_csharp),
    {
        if needs_csharp && !caps.has_csharp {
            return false;
        }
        let platform_key = registry_platform_key(self.host, needs_csharp);
        let mut exact = chars_of(platform_key);
        exact.push('-');
        push_str(&mut exact, registry_arch_key(self.host));
        let mut universal = chars_of(platform_key);
        push_str(&mut universal, "-universal");
        let on_macos = match self.host.os {
            HostOs::Macos => true,
            _ => false,
        };
        let ghost platforms = string_views(caps.platforms@);
        let mut i: usize = 0;
        while i < caps.platforms.len()
            invariant
                i <= caps.platforms.len(),
                platforms == string_views(caps.platforms@),
                on_macos == (self.host.os == HostOs::Macos),
                needs_csharp ==> caps.has_csharp,
                exact@ == platform_key_spec(self.host, needs_csharp) + seq!['-'] + arch_key_spec(
                    self.host,
                ),
                universal@ == platform_key_spec(self.host, needs_csharp) + "-universal"@,
                forall|j: int|
                    0 <= j < i ==> (#[trigger] platforms[j]) != exact@ && !(on_macos
                        && platforms[j] == universal@),
            decreases caps.platforms.len() - i,
        {
            let name = chars_of(caps.platforms[i].as_str());
            if seq_eq(name.as_slice(), exact.as_slice()) || (on_macos && seq_eq(
                name.as_slice(),
                universal.as_slice(),
            )) {
                assert(platforms[i as int] == name@);
                assert(platforms.contains(name@));
                return true;
            }
            i = i + 1;
        }
        false
    }

    /// The installs that fit the query, newest first.
    pub fn resolve_installed(&self, query: &GodotVersion, installed: &[GodotVersionDeterminate])
        -> (r: Vec<GodotVersionDeterminate>)
        ensures
            concrete_views(r@) == sort_newest_first(
                matching_installs(concrete_views(installed@), query@),
            ),
    {
        let ghost all = concrete_views(installed@);
        let mut out: Vec<GodotVersionDeterminate> = Vec::new();
        let mut i: usize = 0;
        assert(all.take(0) =~= Seq::<ConcreteVersion>::empty());
        assert(concrete_views(out@) =~= Seq::<ConcreteVersion>::empty());
        while i < installed.len()
            invariant
                i <= installed.len(),
                all == concrete_views(installed@),
                concrete_views(out@) == matching_installs(all.take(i as int), query@),
            decreases installed.len() - i,
        {
            let ghost before = concrete_views(out@);
            assert(all.take(i + 1).drop_last() =~= all.take(i as int));
            assert(all.take(i + 1).last() == installed@[i as int]@);
            if query.matches_determinate(&installed[i]) {
                out.push(installed[i].clone());
                assert(concrete_views(out@) =~= before.push(installed@[i as int]@));
            }
            i = i + 1;
        }
        assert(all.take(i as int) =~= all);
        out.sort_by_version();
        out
    }

    /// The release to take from a listing of the catalog: the newest
    /// stable release that the host can use, or the newest usable release
    /// where none is stable; it carries the variant flag of the query where
    /// the query sets one. Nothing where the host can use none.
    pub fn resolve_available(
        &self,
        query: &GodotVersion,
        releases: &Vec<GodotVersionDeterminate>,
        capabilities: &Vec<Option<ReleaseCapabilitiesEntry>>,
    ) -> (r: Option<GodotVersionDeterminate>)
        ensures
            match r {
                Some(v) => exists|i: int| #[trigger]
                    is_choice(releases@, capabilities@, self.host, needs_csharp(query@), i) && v@
                        == with_query_flag(query@, releases@[i]@),
                None => forall|i: int|
                    !#[trigger] eligible(
                        releases@,
                        capabilities@,
                        self.host,
                        needs_csharp(query@),
                        i,
                    ),
            },
    {
        let csharp = match query.is_csharp {
            Some(flag) => flag,
            None => false,
        };
        let mut first_usable: Option<usize> = None;
        let mut i: usize = 0;
        while i < releases.len()
            invariant
                i <= releases.len(),
                csharp == needs_csharp(query@),
                forall|j: int|
                    0 <= j < i ==> !(#[trigger] eligible(
                        releases@,
                        capabilities@,
                        self.host,
                        csharp,
                        j,
                    ) && releases@[j]@.is_stable()),
                match first_usable {
                    Some(k) => k < i && eligible(releases@, capabilities@, self.host, csharp, k as int)
                        && forall|j: int|
                        0 <= j < k ==> !#[trigger] eligible(
                            releases@,
                            capabilities@,
                            self.host,
                            csharp,
                            j,
                        ),
                    None => forall|j: int|
                        0 <= j < i ==> !#[trigger] eligible(
                            releases@,
                            capabilities@,
                            self.host,
                            csharp,
                            j,
                        ),
                },
            decreases releases.len() - i,
        {
            let usable = i < capabilities.len() && match &capabilities[i] {
                Some(caps) => self.is_compatible(caps, csharp),
                None => false,
            };
            assert(usable == eligible(releases@, capabilities@, self.host, csharp, i as int));
            if usable {
                if releases[i].is_stable() {
                    assert(is_choice(releases@, capabilities@, self.host, csharp, i as int));
                    return Some(self.apply_csharp(query, releases[i].clone()));
                }
                if first_usable.is_none() {
                    first_usable = Some(i);
                }
            }
            i = i + 1;
        }
        match first_usable {
            Some(k) => {
                assert(is_choice(releases@, capabilities@, self.host, csharp, k as int));
                Some(self.apply_csharp(query, releases[k].clone()))
            },
            None => None,
        }
    }

    /// Whether a request has to be resolved against a listing of the
    /// catalog before it can be installed.
    pub fn needs_listing(query: &GodotVersion) -> (r: bool)
        ensures
            r == needs_listing(query@),
    {
        (query.is_stable() && query.major.is_none()) || query.is_incomplete()
    }

    /// Takes a fully given request as it is, if the host can use that
    /// release: the request zero-filled, with its variant flag. `caps` are
    /// the capabilities of that release.
    pub fn resolve_exact(&self, query: &GodotVersion, caps: &ReleaseCapabilitiesEntry) -> (r:
        Option<GodotVersionDeterminate>)
        ensures
            match r {
                Some(v) => compatible(*caps, self.host, needs_csharp(query@)) && v@
                    == query@.to_determinate(),
                None => !compatible(*caps, self.host, needs_csharp(query@)),
            },
    {
        let csharp = match query.is_csharp {
            Some(flag) => flag,
            None => false,
        };
        if self.is_compatible(caps, csharp) {
            Some(self.apply_csharp(query, query.to_determinate()))
        } else {
            None
        }
    }

    /// What has to be asked of the catalog before the request can be
    /// resolved.
    pub fn catalog_question(request: &ResolveRequest<'_>) -> (r: CatalogQuestion)
        ensures
            match request.mode {
                ResolveMode::Installed { .. } => r is Nothing,
                ResolveMode::Available { use_cache_only } => r == (CatalogQuestion::Listing {
                    use_cache_only,
                }),
                ResolveMode::AutoInstall => if needs_listing(request.query@) {
                    r == (CatalogQuestion::Listing { use_cache_only: false })
                } else {
                    r is Exact && r->Exact_0@ == request.query@.to_determinate().remote_text()
                },
            },
    {
        match &request.mode {
            ResolveMode::Installed { .. } => CatalogQuestion::Nothing,
            ResolveMode::Available { use_cache_only } => CatalogQuestion::Listing {
                use_cache_only: *use_cache_only,
            },
            ResolveMode::AutoInstall => {
                if Self::needs_listing(&request.query) {
                    CatalogQuestion::Listing { use_cache_only: false }
                } else {
                    CatalogQuestion::Exact(request.query.to_determinate().to_remote_str())
                }
            },
        }
    }

    /// Resolves a request, given the catalog's answer to its question.
    ///
    /// Among installs, every fitting install is a candidate. Among
    /// releases, one is chosen as `resolve_available` says; a fully given
    /// request to be installed is taken as `resolve_exact` says. An answer
    /// of another kind than the question has nothing to choose from.
    pub fn resolve(&self, request: &ResolveRequest<'_>, answer: &CatalogAnswer) -> (r:
        ResolveOutcome)
        ensures
            match request.mode {
                ResolveMode::Installed { installed } => r is Candidates && concrete_views(
                    r->Candidates_0@,
                ) == sort_newest_first(
                    matching_installs(concrete_views(installed@), request.query@),
                ),
                _ => {
                    let csharp = needs_csharp(request.query@);
                    let listing = request.mode is Available || needs_listing(request.query@);
                    match *answer {
                        CatalogAnswer::Listing { releases, capabilities } => if listing {
                            match r {
                                ResolveOutcome::Determinate(v) => exists|i: int| #[trigger]
                                    is_choice(releases@, capabilities@, self.host, csharp, i) && v@
                                        == with_query_flag(request.query@, releases@[i]@),
                                ResolveOutcome::NotFound => forall|i: int|
                                    !#[trigger] eligible(
                                        releases@,
                                        capabilities@,
                                        self.host,
                                        csharp,
                                        i,
                                    ),
                                ResolveOutcome::Candidates(_) => false,
                            }
                        } else {
                            r is NotFound
                        },
                        CatalogAnswer::Exact(caps) => if listing {
                            r is NotFound
                        } else if compatible(caps, self.host, csharp) {
                            r is Determinate && r->Determinate_0@
                                == request.query@.to_determinate()
                        } else {
                            r is NotFound
                        },
                        CatalogAnswer::Nothing => r is NotFound,
                    }
                },
            },
    {
        match &request.mode {
            ResolveMode::Installed { installed } => ResolveOutcome::Candidates(
                self.resolve_installed(&request.query, installed),
            ),
            ResolveMode::Available { .. } => match answer {
                CatalogAnswer::Listing { releases, capabilities } => {
                    match self.resolve_available(&request.query, releases, capabilities) {
                        Some(v) => ResolveOutcome::Determinate(v),
                        None => ResolveOutcome::NotFound,
                    }
                },
                _ => ResolveOutcome::NotFound,
            },
            ResolveMode::AutoInstall => {
                let listing = Self::needs_listing(&request.query);
                match answer {
                    CatalogAnswer::Listing { releases, capabilities } => {
                        if listing {
                            match self.resolve_available(&request.query, releases, capabilities) {
                                Some(v) => ResolveOutcome::Determinate(v),
                                None => ResolveOutcome::NotFound,
                            }
                        } else {
                            ResolveOutcome::NotFound
                        }
                    },
                    CatalogAnswer::Exact(caps) => {
                        if listing {
                            ResolveOutcome::NotFound
                        } else {
                            match self.resolve_exact(&request.query, caps) {
                                Some(v) => ResolveOutcome::Determinate(v),
                                None => ResolveOutcome::NotFound,
                            }
                        }
                    },
                    CatalogAnswer::Nothing => ResolveOutcome::NotFound,
                }
            },
        }
    }

    /// The version to install for a request: what `resolve` chose, or the
    /// version-not-found error where it chose nothing.
    pub fn resolve_for_auto_install(&self, query: &GodotVersion, answer: &CatalogAnswer) -> (r:
        Result<GodotVersionDeterminate, GdvmError>)
        ensures
            r is Err ==> r->Err_0 is VersionNotFound,
            ({
                let csharp = needs_csharp(query@);
                match *answer {
                    CatalogAnswer::Listing { releases, capabilities } => if needs_listing(query@) {
                        match r {
                            Ok(v) => exists|i: int| #[trigger]
                                is_choice(releases@, capabilities@, self.host, csharp, i) && v@
                                    == with_query_flag(query@, releases@[i]@),
                            Err(_) => forall|i: int|
                                !#[trigger] eligible(
                                    releases@,
                                    capabilities@,
                                    self.host,
                                    csharp,
                                    i,
                                ),
                        }
                    } else {
                        r is Err
                    },
                    CatalogAnswer::Exact(caps) => if !needs_listing(query@) && compatible(
                        caps,
                        self.host,
                        csharp,
                    ) {
                        r is Ok && r->Ok_0@ == query@.to_determinate()
                    } else {
                        r is Err
                    },
                    CatalogAnswer::Nothing => r is Err,
                }
            }),
    {
        let listing = Self::needs_listing(query);
        let chosen = match answer {
            CatalogAnswer::Listing { releases, capabilities } => {
                if listing {
                    self.resolve_available(query, releases, capabilities)
                } else {
                    None
                }
            },
            CatalogAnswer::Exact(caps) => {
                if listing {
                    None
                } else {
                    self.resolve_exact(query, caps)
                }
            },
            CatalogAnswer::Nothing => None,
        };
        match chosen {
            Some(v) => Ok(v),
            None => Err(GdvmError::VersionNotFound),
        }
    }

    /// The newest stable release of a listing, or the no-stable-release
    /// error where the listing has none.
    pub fn latest_stable(&self, releases: &Vec<GodotVersionDeterminate>) -> (r: Result<
        GodotVersionDeterminate,
        GdvmError,
    >)
        ensures
            match r {
                Ok(v) => exists|i: int|
                    0 <= i < releases@.len() && (#[trigger] releases@[i])@.is_stable() && v@
                        == releases@[i]@ && forall|j: int|
                        0 <= j < i ==> !(#[trigger] releases@[j])@.is_stable(),
                Err(e) => e is NoStableRelease && forall|j: int|
                    0 <= j < releases@.len() ==> !(#[trigger] releases@[j])@.is_stable(),
            },
    {
        let mut i: usize = 0;
        while i < releases.len()
            invariant
                i <= releases.len(),
                forall|j: int| 0 <= j < i ==> !(#[trigger] releases@[j])@.is_stable(),
            decreases releases.len() - i,
        {
            if releases[i].is_stable() {
                return Ok(releases[i].clone());
            }
            i = i + 1;
        }
        Err(GdvmError::NoStableRelease)
    }
}

} // verus!
