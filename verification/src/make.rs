use vstd::prelude::*;
use vstd::string::StringExecFns;
use crate::BuildError;
use crate::namer::{
    unit_args,
    unit_arg_list,
    cobject_target,
    build_target,
    derive_object_path,
    metro_hash128,
};
use crate::text::{views, split_ws, split_flags, mentions_cpp, has_cpp, sanitize_path, join_flags};

verus! {

broadcast use vstd::seq_lib::group_seq_lib_default;

/// The kind of artifact a build produces; `Header` has no link step.
#[derive(Clone, Copy, Debug, PartialEq, Eq, Structural)]
pub enum ArtifactType {
    Lib,
    Exe,
    Test,
    Header,
}

/// The final build output requested by the caller.
pub struct Artifact {
    pub name: String,
    pub typ: ArtifactType,
}

/// Project configuration, as upstream parsing hands it over: the language
/// standard, include directories, package-config package names, extra
/// compile and link flags, and foreign object source paths.
pub struct Project {
    pub standard: Option<String>,
    pub cincludes: Option<Vec<String>>,
    pub pkgconfig: Option<Vec<String>>,
    pub cflags: Option<Vec<String>>,
    pub lflags: Option<Vec<String>>,
    pub cobjects: Option<Vec<String>>,
}

/// The standard output of the two package-config queries for one package:
/// one for compile flags, one for link flags.
pub struct PkgFlags {
    pub cflags_out: String,
    pub libs_out: String,
}

/// A generated translation unit: its logical name, the generated file, and
/// every source that contributed to its generation.
pub struct CFile {
    pub name: String,
    pub filepath: String,
    pub sources: Vec<String>,
}

/// One pending compile invocation; independent of every other step.
pub struct Step {
    pub source: String,
    pub args: Vec<String>,
}

/// The build orchestrator's state: the requested artifact, the pending
/// compile steps, the compiler executable, and the two ordered flag lists.
pub struct Make {
    pub artifact: Artifact,
    pub steps: Vec<Step>,
    pub cc: String,
    pub cflags: Vec<String>,
    pub lflags: Vec<String>,
}

/// The compiler executable: an environment override wins; otherwise the
/// C-family default, or the C++-family default when the standard mentions
/// `c++`.
pub open spec fn compiler_spec(
    standard: Option<String>,
    cc_env: Option<String>,
    cxx_env: Option<String>,
) -> Seq<char> {
    if standard is Some && mentions_cpp(standard->0@) {
        match cxx_env {
            Some(x) => x@,
            None => "clang++"@,
        }
    } else {
        match cc_env {
            Some(x) => x@,
            None => "clang"@,
        }
    }
}

/// The `-std=` flag, when a language standard is configured.
pub open spec fn std_part(standard: Option<String>) -> Seq<Seq<char>> {
    match standard {
        None => Seq::empty(),
        Some(s) => seq!["-std="@ + s@],
    }
}

/// An `-I` flag pair for each include directory, in order.
pub open spec fn include_flags(incs: Seq<Seq<char>>) -> Seq<Seq<char>>
    decreases incs.len(),
{
    if incs.len() == 0 {
        Seq::empty()
    } else {
        include_flags(incs.drop_last()) + seq!["-I"@, incs.last()]
    }
}

pub open spec fn include_part(incs: Option<Vec<String>>) -> Seq<Seq<char>> {
    match incs {
        None => Seq::empty(),
        Some(v) => include_flags(views(v@)),
    }
}

/// The compile-flag tokens of the package-config answers, package by
/// package, each answer split on whitespace with its order kept.
pub open spec fn pkg_ctokens(pkgs: Seq<PkgFlags>) -> Seq<Seq<char>>
    decreases pkgs.len(),
{
    if pkgs.len() == 0 {
        Seq::empty()
    } else {
        pkg_ctokens(pkgs.drop_last()) + split_ws(pkgs.last().cflags_out@)
    }
}

/// The link-flag tokens of the package-config answers.
pub open spec fn pkg_ltokens(pkgs: Seq<PkgFlags>) -> Seq<Seq<char>>
    decreases pkgs.len(),
{
    if pkgs.len() == 0 {
        Seq::empty()
    } else {
        pkg_ltokens(pkgs.drop_last()) + split_ws(pkgs.last().libs_out@)
    }
}

/// The baseline flags every compile gets: position-independent code, the
/// working directory and the generated-include directory on the include
/// path, and hidden symbol visibility.
pub open spec fn baseline_cflags() -> Seq<Seq<char>> {
    seq!["-fPIC"@, "-I"@, "."@, "-I"@, "./target/include/"@, "-fvisibility=hidden"@]
}

/// User-supplied extra flags, appended last so they can override defaults.
pub open spec fn extra_part(extra: Option<Vec<String>>) -> Seq<Seq<char>> {
    match extra {
        None => Seq::empty(),
        Some(v) => views(v@),
    }
}

/// The full ordered compile-flag list a fresh `Make` holds.
pub open spec fn new_cflags(
    standard: Option<String>,
    cincludes: Option<Vec<String>>,
    extra: Option<Vec<String>>,
    pkgs: Seq<PkgFlags>,
) -> Seq<Seq<char>> {
    std_part(standard) + include_part(cincludes) + pkg_ctokens(pkgs) + baseline_cflags()
        + extra_part(extra)
}

/// The full ordered link-flag list a fresh `Make` holds.
pub open spec fn new_lflags(extra: Option<Vec<String>>, pkgs: Seq<PkgFlags>) -> Seq<Seq<char>> {
    pkg_ltokens(pkgs) + extra_part(extra)
}

impl Make {
    /// Sets up a build: selects the compiler and assembles both flag lists
    /// from the configuration, the environment overrides, and the
    /// package-config answers (one entry per configured package, in
    /// configuration order; the caller queried them and aborted on any
    /// query failure). No units are registered yet.
    pub fn new(
        project: Project,
        artifact: Artifact,
        cc_env: Option<String>,
        cxx_env: Option<String>,
        pkg: &Vec<PkgFlags>,
    ) -> (m: Make)
        ensures
            m.cc@ == compiler_spec(project.standard, cc_env, cxx_env),
            views(m.cflags@) == new_cflags(
                project.standard,
                project.cincludes,
                project.cflags,
                pkg@,
            ),
            views(m.lflags@) == new_lflags(project.lflags, pkg@),
            m.steps@.len() == 0,
            m.artifact.name@ == artifact.name@,
            m.artifact.typ == artifact.typ,
    {
        let mut cflags: Vec<String> = Vec::new();
        let mut lflags: Vec<String> = Vec::new();

        let mut cc = match cc_env {
            Some(s) => s,
            None => String::from_str("clang"),
        };

        match &project.standard {
            Some(sd) => {
                let mut f = String::from_str("-std=");
                f.append(sd.as_str());
                cflags.push(f);
                if has_cpp(sd.as_str()) {
                    cc = match cxx_env {
                        Some(x) => x,
                        None => String::from_str("clang++"),
                    };
                }
            },
            None => {},
        }
        let ghost part_std = std_part(project.standard);
        proof {
            assert(views(cflags@) =~= part_std);
            assert(cc@ == compiler_spec(project.standard, cc_env, cxx_env));
        }

        match &project.cincludes {
            Some(incs) => {
                let mut i: usize = 0;
                while i < incs.len()
                    invariant
                        i <= incs.len(),
                        views(cflags@) =~= part_std + include_flags(views(incs@).take(i as int)),
                    decreases incs.len() - i,
                {
                    let f1 = String::from_str("-I");
                    let f2 = incs[i].clone();
                    let ghost g1 = f1;
                    let ghost g2 = f2;
                    let ghost prev = cflags@;
                    cflags.push(f1);
                    let ghost mid = cflags@;
                    cflags.push(f2);
                    proof {
                        let vs = views(incs@);
                        crate::text::lemma_views_push(prev, g1);
                        crate::text::lemma_views_push(mid, g2);
                        assert(views(cflags@) == views(prev).push("-I"@).push(vs[i as int]));
                        assert(vs.take(i + 1).drop_last() =~= vs.take(i as int));
                        assert(vs.take(i + 1).last() == vs[i as int]);
                        assert(include_flags(vs.take(i + 1)) == include_flags(vs.take(i as int))
                            + seq!["-I"@, vs[i as int]]);
                        assert(part_std + include_flags(vs.take(i + 1)) =~= (part_std
                            + include_flags(vs.take(i as int))).push("-I"@).push(vs[i as int]));
                        assert(views(cflags@) == part_std + include_flags(vs.take(i + 1)));
                    }
                    i = i + 1;
                }
                proof {
                    assert(views(incs@).take(incs@.len() as int) =~= views(incs@));
                }
            },
            None => {},
        }
        let ghost part_inc = include_part(project.cincludes);
        proof {
            assert(views(cflags@) =~= part_std + part_inc);
        }

        let mut i: usize = 0;
        while i < pkg.len()
            invariant
                i <= pkg.len(),
                views(cflags@) =~= part_std + part_inc + pkg_ctokens(pkg@.take(i as int)),
                views(lflags@) =~= pkg_ltokens(pkg@.take(i as int)),
            decreases pkg.len() - i,
        {
            let mut ctoks = split_flags(pkg[i].cflags_out.as_str());
            let mut ltoks = split_flags(pkg[i].libs_out.as_str());
            proof {
                assert(pkg@.take(i + 1).drop_last() =~= pkg@.take(i as int));
                assert(pkg@.take(i + 1).last() == pkg@[i as int]);
            }
            let ghost old_c = cflags@;
            let ghost old_l = lflags@;
            let ghost c0 = ctoks@;
            let ghost l0 = ltoks@;
            cflags.append(&mut ctoks);
            lflags.append(&mut ltoks);
            proof {
                crate::text::lemma_views_concat(old_c, c0);
                crate::text::lemma_views_concat(old_l, l0);
                assert(views(cflags@) =~= part_std + part_inc + pkg_ctokens(pkg@.take(i + 1)));
                assert(views(lflags@) =~= pkg_ltokens(pkg@.take(i + 1)));
            }
            i = i + 1;
        }
        proof {
            assert(pkg@.take(pkg@.len() as int) =~= pkg@);
        }

        cflags.push(String::from_str("-fPIC"));
        cflags.push(String::from_str("-I"));
        cflags.push(String::from_str("."));
        cflags.push(String::from_str("-I"));
        cflags.push(String::from_str("./target/include/"));
        cflags.push(String::from_str("-fvisibility=hidden"));
        proof {
            assert(views(cflags@) =~= part_std + part_inc + pkg_ctokens(pkg@)
                + baseline_cflags());
        }

        match &project.cflags {
            Some(extra) => {
                let ghost base = views(cflags@);
                let mut i: usize = 0;
                while i < extra.len()
                    invariant
                        i <= extra.len(),
                        views(cflags@) =~= base + views(extra@).take(i as int),
                    decreases extra.len() - i,
                {
                    let f = extra[i].clone();
                    let ghost g = f;
                    let ghost prev = cflags@;
                    cflags.push(f);
                    proof {
                        let vs = views(extra@);
                        crate::text::lemma_views_push(prev, g);
                        assert(vs.take(i + 1) =~= vs.take(i as int).push(vs[i as int]));
                        assert(base + vs.take(i + 1) =~= (base + vs.take(i as int)).push(
                            vs[i as int],
                        ));
                        assert(views(cflags@) == base + vs.take(i + 1));
                    }
                    i = i + 1;
                }
                proof {
                    assert(views(extra@).take(extra@.len() as int) =~= views(extra@));
                }
            },
            None => {},
        }

        match &project.lflags {
            Some(extra) => {
                let ghost base = views(lflags@);
                let mut i: usize = 0;
                while i < extra.len()
                    invariant
                        i <= extra.len(),
                        views(lflags@) =~= base + views(extra@).take(i as int),
                    decreases extra.len() - i,
                {
                    let f = extra[i].clone();
                    let ghost g = f;
                    let ghost prev = lflags@;
                    lflags.push(f);
                    proof {
                        let vs = views(extra@);
                        crate::text::lemma_views_push(prev, g);
                        assert(vs.take(i + 1) =~= vs.take(i as int).push(vs[i as int]));
                        assert(base + vs.take(i + 1) =~= (base + vs.take(i as int)).push(
                            vs[i as int],
                        ));
                        assert(views(lflags@) == base + vs.take(i + 1));
                    }
                    i = i + 1;
                }
                proof {
                    assert(views(extra@).take(extra@.len() as int) =~= views(extra@));
                }
            },
            None => {},
        }

        proof {
            assert(views(cflags@) =~= new_cflags(
                project.standard,
                project.cincludes,
                project.cflags,
                pkg@,
            ));
            assert(views(lflags@) =~= new_lflags(project.lflags, pkg@));
        }

        Make { artifact, steps: Vec::new(), cc, cflags, lflags }
    }

    /// The object path a foreign object unit will be cached under.
    pub fn cobject_path(&self, inp: &str) -> (r: String)
        ensures
            r@ == cobject_target(views(self.cflags@), inp@),
    {
        crate::namer::cobject_object_path(&self.cflags, inp)
    }

    /// The object path a generated translation unit will be cached under.
    pub fn build_path(&self, cf: &CFile) -> (r: String)
        ensures
            r@ == build_target(views(self.cflags@), cf.name@, cf.filepath@),
    {
        crate::namer::build_object_path(&self.cflags, cf.name.as_str(), cf.filepath.as_str())
    }

    /// Registers a foreign object unit. `stale` is the staleness oracle's
    /// verdict for this unit's single source against `cobject_path(inp)`
    /// (the caller read the timestamps). A stale unit enqueues one step;
    /// stale or not, the derived object path is prepended to the link
    /// flags, since an up-to-date cached object must still be linked.
    pub fn cobject(&mut self, inp: &str, stale: bool)
        ensures
            final(self).artifact == old(self).artifact,
            final(self).cc == old(self).cc,
            final(self).cflags == old(self).cflags,
            views(final(self).lflags@) == register_object(
                views(old(self).lflags@),
                cobject_target(views(old(self).cflags@), inp@),
            ),
            !stale ==> final(self).steps == old(self).steps,
            stale ==> final(self).steps@.len() == old(self).steps@.len() + 1
                && final(self).steps@.drop_last() == old(self).steps@
                && final(self).steps@.last().source@ == inp@
                && views(final(self).steps@.last().args@) == unit_args(
                views(old(self).cflags@),
                inp@,
            ).push(cobject_target(views(old(self).cflags@), inp@)),
    {
        let mut args = unit_arg_list(&self.cflags, inp);
        let joined = join_flags(&args);
        let h = metro_hash128(joined.as_str());
        let stem = sanitize_path(inp);
        let outp = derive_object_path("./target/c/", stem.as_str(), h);
        let outp2 = outp.clone();
        let ghost prev_args = args@;
        let ghost gout = outp2;
        args.push(outp2);
        proof {
            crate::text::lemma_views_push(prev_args, gout);
        }
        if stale {
            self.steps.push(Step { source: String::from_str(inp), args });
            proof {
                assert(self.steps@.drop_last() =~= old(self).steps@);
            }
        }
        let ghost prev_l = self.lflags@;
        let ghost goutp = outp;
        self.lflags.insert(0, outp);
        proof {
            assert(prev_l.insert(0, goutp) =~= seq![goutp] + prev_l);
            crate::text::lemma_views_concat(seq![goutp], prev_l);
            assert(views(seq![goutp]) =~= seq![goutp@]);
            assert(views(self.lflags@) == register_object(
                views(prev_l),
                cobject_target(views(self.cflags@), inp@),
            ));
        }
    }

    /// Registers a generated translation unit. `stale` is the staleness
    /// oracle's verdict for the unit's full source dependency set against
    /// `build_path(cf)`. A stale unit enqueues one step; stale or not, the
    /// derived object path is prepended to the link flags.
    pub fn build(&mut self, cf: &CFile, stale: bool)
        ensures
            final(self).artifact == old(self).artifact,
            final(self).cc == old(self).cc,
            final(self).cflags == old(self).cflags,
            views(final(self).lflags@) == register_object(
                views(old(self).lflags@),
                build_target(views(old(self).cflags@), cf.name@, cf.filepath@),
            ),
            !stale ==> final(self).steps == old(self).steps,
            stale ==> final(self).steps@.len() == old(self).steps@.len() + 1
                && final(self).steps@.drop_last() == old(self).steps@
                && final(self).steps@.last().source@ == cf.filepath@
                && views(final(self).steps@.last().args@) == unit_args(
                views(old(self).cflags@),
                cf.filepath@,
            ).push(build_target(views(old(self).cflags@), cf.name@, cf.filepath@)),
    {
        let mut args = unit_arg_list(&self.cflags, cf.filepath.as_str());
        let joined = join_flags(&args);
        let h = metro_hash128(joined.as_str());
        let outp = derive_object_path("./target/zz/", cf.name.as_str(), h);
        let outp2 = outp.clone();
        let ghost prev_args = args@;
        let ghost gout = outp2;
        args.push(outp2);
        proof {
            crate::text::lemma_views_push(prev_args, gout);
        }
        if stale {
            self.steps.push(Step { source: cf.filepath.clone(), args });
            proof {
                assert(self.steps@.drop_last() =~= old(self).steps@);
            }
        }
        let ghost prev_l = self.lflags@;
        let ghost goutp = outp;
        self.lflags.insert(0, outp);
        proof {
            assert(prev_l.insert(0, goutp) =~= seq![goutp] + prev_l);
            crate::text::lemma_views_concat(seq![goutp], prev_l);
            assert(views(seq![goutp]) =~= seq![goutp@]);
            assert(views(self.lflags@) == register_object(
                views(prev_l),
                build_target(views(self.cflags@), cf.name@, cf.filepath@),
            ));
        }
    }

    /// Prepares the link phase. Linking a header-only artifact is a
    /// configuration error, raised here before any subprocess could be
    /// spawned. Otherwise the returned plan holds the compiler to drive,
    /// every enqueued step, and the final link invocation: the accumulated
    /// link flags, the artifact-kind tail, and the closing visibility flag.
    pub fn link(self) -> (r: Result<LinkPlan, BuildError>)
        ensures
            (self.artifact.typ == ArtifactType::Header) <==> r is Err,
            r is Err ==> r->Err_0 is Configuration && r->Err_0->Configuration_0@
                == "cannot link header"@,
            r is Ok ==> r->Ok_0.cc == self.cc && r->Ok_0.steps == self.steps && views(
                r->Ok_0.args@,
            ) == views(self.lflags@) + artifact_tail(self.artifact.typ, self.artifact.name@)
                + seq!["-fvisibility=hidden"@],
    {
        let Make { artifact, steps, cc, cflags: _, lflags } = self;
        let mut args = lflags;
        let ghost base = views(args@);
        match artifact.typ {
            ArtifactType::Header => Err(
                BuildError::Configuration(String::from_str("cannot link header")),
            ),
            ArtifactType::Lib => {
                args.push(String::from_str("-shared"));
                args.push(String::from_str("-o"));
                let mut p = String::from_str("./target/");
                p.append(artifact.name.as_str());
                p.append(".so");
                args.push(p);
                args.push(String::from_str("-fvisibility=hidden"));
                proof {
                    assert(views(args@) =~= base + artifact_tail(
                        ArtifactType::Lib,
                        artifact.name@,
                    ) + seq!["-fvisibility=hidden"@]);
                }
                Ok(LinkPlan { cc, steps, args })
            },
            ArtifactType::Exe => {
                args.push(String::from_str("-o"));
                let mut p = String::from_str("./target/");
                p.append(artifact.name.as_str());
                args.push(p);
                args.push(String::from_str("-fvisibility=hidden"));
                proof {
                    assert(views(args@) =~= base + artifact_tail(
                        ArtifactType::Exe,
                        artifact.name@,
                    ) + seq!["-fvisibility=hidden"@]);
                }
                Ok(LinkPlan { cc, steps, args })
            },
            ArtifactType::Test => {
                args.push(String::from_str("-o"));
                let mut p = String::from_str("./target/");
                p.append(artifact.name.as_str());
                args.push(p);
                args.push(String::from_str("-fvisibility=hidden"));
                proof {
                    assert(views(args@) =~= base + artifact_tail(
                        ArtifactType::Test,
                        artifact.name@,
                    ) + seq!["-fvisibility=hidden"@]);
                }
                Ok(LinkPlan { cc, steps, args })
            },
        }
    }
}

/// Registering a unit prepends its object path to the link flags, so later
/// units stand earlier in the final link invocation.
pub open spec fn register_object(lflags: Seq<Seq<char>>, outp: Seq<char>) -> Seq<Seq<char>> {
    seq![outp] + lflags
}

/// The artifact-kind-specific tail of the link invocation.
pub open spec fn artifact_tail(typ: ArtifactType, name: Seq<char>) -> Seq<Seq<char>> {
    match typ {
        ArtifactType::Lib => seq!["-shared"@, "-o"@, "./target/"@ + name + ".so"@],
        ArtifactType::Exe => seq!["-o"@, "./target/"@ + name],
        ArtifactType::Test => seq!["-o"@, "./target/"@ + name],
        ArtifactType::Header => Seq::empty(),
    }
}

/// Everything the unverified driver needs to finish a build: the compiler,
/// the enqueued compile steps, and the final link invocation.
pub struct LinkPlan {
    pub cc: String,
    pub steps: Vec<Step>,
    pub args: Vec<String>,
}

/// How one compile step's subprocess ended: whether it succeeded, and its
/// exit code when the system reported one.
#[derive(Clone, Copy, Debug)]
pub struct StepResult {
    pub success: bool,
    pub code: Option<i32>,
}

/// The exit code the whole build propagates for a failed subprocess: the
/// subprocess's own code, or a fixed fallback when none is available.
pub open spec fn fallback_code(code: Option<i32>) -> i32 {
    match code {
        Some(c) => c,
        None => 3,
    }
}

pub open spec fn all_succeeded(rs: Seq<StepResult>) -> bool {
    forall|i: int| 0 <= i < rs.len() ==> rs[i].success
}

/// The index of the first failed step.
pub open spec fn first_failure(rs: Seq<StepResult>) -> int
    decreases rs.len(),
{
    if rs.len() == 0 {
        0
    } else if !rs.first().success {
        0
    } else {
        1 + first_failure(rs.drop_first())
    }
}

pub proof fn lemma_first_failure(rs: Seq<StepResult>, i: int)
    requires
        0 <= i < rs.len(),
        !rs[i].success,
        forall|k: int| 0 <= k < i ==> rs[k].success,
    ensures
        first_failure(rs) == i,
    decreases i,
{
    if i > 0 {
        lemma_first_failure(rs.drop_first(), i - 1);
    }
}

/// The result-aggregating join of the compile phase, the barrier before
/// linking: it succeeds exactly when every step's subprocess succeeded, and
/// otherwise reports the first failure's exit code (or the fallback) as the
/// code the whole build must terminate with — fail-fast, with no partial
/// success.
pub fn compile_phase(results: &Vec<StepResult>) -> (r: Result<(), BuildError>)
    ensures
        r is Ok <==> all_succeeded(results@),
        r is Err ==> r->Err_0 is ExternalTool && r->Err_0->ExternalTool_0 == fallback_code(
            results@[first_failure(results@)].code,
        ) && 0 <= first_failure(results@) < results@.len(),
{
    let mut i: usize = 0;
    while i < results.len()
        invariant
            i <= results.len(),
            forall|k: int| 0 <= k < i ==> results@[k].success,
        decreases results.len() - i,
    {
        let res = results[i];
        if !res.success {
            proof {
                lemma_first_failure(results@, i as int);
            }
            let code = match res.code {
                Some(c) => c,
                None => 3,
            };
            return Err(BuildError::ExternalTool(code));
        }
        i = i + 1;
    }
    Ok(())
}

/// The link-order law: registering units in some order places their object
/// paths in the link flags in the reverse order, each new object in front,
/// so the last-registered unit's object stands first and foreign objects
/// registered during setup stand last.
pub proof fn lemma_link_order(
    lflags0: Seq<Seq<char>>,
    o1: Seq<char>,
    o2: Seq<char>,
    o3: Seq<char>,
)
    ensures
        ({
            let r = register_object(register_object(register_object(lflags0, o1), o2), o3);
            r.len() == lflags0.len() + 3 && r[0] == o3 && r[1] == o2 && r[2] == o1 && r.skip(3)
                == lflags0
        }),
{
    let r = register_object(register_object(register_object(lflags0, o1), o2), o3);
    assert(r.skip(3) =~= lflags0);
}

} // verus!
